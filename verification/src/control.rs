//! The control finite state machine.
//!
//! Each cycle it drives a default zero on every load enable and mask, then
//! overrides signals according to its current state; selector and operation
//! nets that the state does not drive are unknown. On the clock edge it
//! moves to the next state computed combinationally.

use crate::bytes::{all_known, asserted, le_val, shl_bytes, and_bytes, unknown_seq, Bytes};
use crate::types::{
    wf_byte, wf_word, States, ALU1_SEL_PC, ALU1_SEL_RS1, ALU2_SEL_B_IMM, ALU2_SEL_I_IMM,
    ALU2_SEL_J_IMM, ALU2_SEL_RS2, ALU2_SEL_S_IMM, ALU2_SEL_U_IMM, ALU_ADD, ALU_SRA, ALU_SRL,
    ALU_SUB, CMP_SEL_I_IMM, CMP_SEL_RS2, FUNCT3_ADD, FUNCT3_BLT, FUNCT3_BLTU, FUNCT3_LB,
    FUNCT3_LBU, FUNCT3_LH, FUNCT3_LHU, FUNCT3_LW, FUNCT3_SB, FUNCT3_SH, FUNCT3_SLT, FUNCT3_SLTU,
    FUNCT3_SR, FUNCT3_SW, MEM_ADDR_SEL_ALU, MEM_ADDR_SEL_PC, OPCODE_AUIPC, OPCODE_BR, OPCODE_IMM,
    OPCODE_JAL, OPCODE_JALR, OPCODE_LOAD, OPCODE_LUI, OPCODE_REG, OPCODE_STORE, PC_SEL_ALU,
    PC_SEL_ALU_MOD2, PC_SEL_PLUS4, RF_SEL_ALU, RF_SEL_BR_EN, RF_SEL_LB, RF_SEL_LBU, RF_SEL_LH,
    RF_SEL_LHU, RF_SEL_LW, RF_SEL_PC_PLUS4, RF_SEL_U_IMM,
};
use vstd::prelude::*;

verus! {

/// The control output nets of one combinational pass.
pub struct ControlSignals {
    pub load_pc: Bytes,
    pub load_ir: Bytes,
    pub load_regfile: Bytes,
    pub alu_op: Bytes,
    pub cmp_op: Bytes,
    pub pc_mux_sel: Bytes,
    pub alu_mux1_sel: Bytes,
    pub alu_mux2_sel: Bytes,
    pub regfile_mux_sel: Bytes,
    pub mem_addr_mux_sel: Bytes,
    pub cmp_mux_sel: Bytes,
    pub mem_read_en: Bytes,
    pub mem_rmask: Bytes,
    pub mem_write_en: Bytes,
    pub mem_wmask: Bytes,
    /// The state the machine will enter at the clock edge.
    pub next_state: States,
}

/// The mathematical model of one control pass.
pub struct CtlView {
    pub load_pc: Seq<Option<u8>>,
    pub load_ir: Seq<Option<u8>>,
    pub load_regfile: Seq<Option<u8>>,
    pub alu_op: Seq<Option<u8>>,
    pub cmp_op: Seq<Option<u8>>,
    pub pc_mux_sel: Seq<Option<u8>>,
    pub alu_mux1_sel: Seq<Option<u8>>,
    pub alu_mux2_sel: Seq<Option<u8>>,
    pub regfile_mux_sel: Seq<Option<u8>>,
    pub mem_addr_mux_sel: Seq<Option<u8>>,
    pub cmp_mux_sel: Seq<Option<u8>>,
    pub mem_read_en: Seq<Option<u8>>,
    pub mem_rmask: Seq<Option<u8>>,
    pub mem_write_en: Seq<Option<u8>>,
    pub mem_wmask: Seq<Option<u8>>,
    pub next_state: States,
}

impl View for ControlSignals {
    type V = CtlView;

    open spec fn view(&self) -> CtlView {
        CtlView {
            load_pc: self.load_pc@,
            load_ir: self.load_ir@,
            load_regfile: self.load_regfile@,
            alu_op: self.alu_op@,
            cmp_op: self.cmp_op@,
            pc_mux_sel: self.pc_mux_sel@,
            alu_mux1_sel: self.alu_mux1_sel@,
            alu_mux2_sel: self.alu_mux2_sel@,
            regfile_mux_sel: self.regfile_mux_sel@,
            mem_addr_mux_sel: self.mem_addr_mux_sel@,
            cmp_mux_sel: self.cmp_mux_sel@,
            mem_read_en: self.mem_read_en@,
            mem_rmask: self.mem_rmask@,
            mem_write_en: self.mem_write_en@,
            mem_wmask: self.mem_wmask@,
            next_state: self.next_state,
        }
    }
}

/// A known single byte, as control signals drive it.
pub open spec fn sig(v: u8) -> Seq<Option<u8>> {
    seq![Some(v)]
}

/// The default control pass: every load enable, memory enable and mask a
/// known zero, every selector and operation net undriven (unknown), and the
/// next state `Fetch`.
pub open spec fn ctl_defaults() -> CtlView {
    CtlView {
        load_pc: sig(0),
        load_ir: sig(0),
        load_regfile: sig(0),
        alu_op: unknown_seq(1),
        cmp_op: unknown_seq(1),
        pc_mux_sel: unknown_seq(1),
        alu_mux1_sel: unknown_seq(1),
        alu_mux2_sel: unknown_seq(1),
        regfile_mux_sel: unknown_seq(1),
        mem_addr_mux_sel: unknown_seq(1),
        cmp_mux_sel: unknown_seq(1),
        mem_read_en: sig(0),
        mem_rmask: sig(0),
        mem_write_en: sig(0),
        mem_wmask: sig(0),
        next_state: States::Fetch,
    }
}

/// The read mask for the current access: a full word during a fetch, and
/// during a load the lanes named by funct3, placed at the low two bits of
/// the effective address. An unrecognised or unknown funct3 yields an
/// unknown mask.
pub open spec fn rmask_spec(
    state: States,
    funct3: Seq<Option<u8>>,
    mem_addr: Seq<Option<u8>>,
) -> Seq<Option<u8>> {
    if state == States::Fetch {
        sig(0x0F)
    } else {
        match funct3[0] {
            Some(c) => if c == FUNCT3_LW {
                sig(0x0F)
            } else if c == FUNCT3_LH || c == FUNCT3_LHU {
                shl_bytes(sig(0x03), and_bytes(mem_addr, sig(0x03)))
            } else if c == FUNCT3_LB || c == FUNCT3_LBU {
                shl_bytes(sig(0x01), and_bytes(mem_addr, sig(0x03)))
            } else {
                unknown_seq(1)
            },
            None => unknown_seq(1),
        }
    }
}

/// The write mask for a store, as [`rmask_spec`] but keyed by the store
/// funct3 codes.
pub open spec fn wmask_spec(
    funct3: Seq<Option<u8>>,
    mem_addr: Seq<Option<u8>>,
) -> Seq<Option<u8>> {
    match funct3[0] {
        Some(c) => if c == FUNCT3_SW {
            sig(0x0F)
        } else if c == FUNCT3_SH {
            shl_bytes(sig(0x03), and_bytes(mem_addr, sig(0x03)))
        } else if c == FUNCT3_SB {
            shl_bytes(sig(0x01), and_bytes(mem_addr, sig(0x03)))
        } else {
            unknown_seq(1)
        },
        None => unknown_seq(1),
    }
}

/// The state entered at the clock edge: `Fetch` stalls until the memory
/// responds and then decodes; `Decode` dispatches on the opcode (an
/// unknown or unrecognised opcode falls back to `Fetch`); loads and stores
/// stall until the memory responds; every other state returns to `Fetch`.
pub open spec fn next_state_spec(
    state: States,
    opcode: Seq<Option<u8>>,
    mem_resp: Seq<Option<u8>>,
) -> States {
    match state {
        States::Fetch => if asserted(mem_resp) {
            States::Decode
        } else {
            States::Fetch
        },
        States::Decode => match opcode[0] {
            Some(c) => if c == OPCODE_LUI {
                States::Lui
            } else if c == OPCODE_AUIPC {
                States::Auipc
            } else if c == OPCODE_JAL {
                States::Jal
            } else if c == OPCODE_JALR {
                States::Jalr
            } else if c == OPCODE_BR {
                States::Br
            } else if c == OPCODE_LOAD {
                States::Load
            } else if c == OPCODE_STORE {
                States::Store
            } else if c == OPCODE_IMM {
                States::Imm
            } else if c == OPCODE_REG {
                States::Reg
            } else {
                States::Fetch
            },
            None => States::Fetch,
        },
        States::Load => if asserted(mem_resp) {
            States::Fetch
        } else {
            States::Load
        },
        States::Store => if asserted(mem_resp) {
            States::Fetch
        } else {
            States::Store
        },
        _ => States::Fetch,
    }
}

/// Whether funct7's bit 5 is set: selects SUB over ADD and the arithmetic
/// over the logical right shift.
pub open spec fn f7_bit5(c: u8) -> bool {
    (c / 32) % 2 == 1
}

/// What the control unit drives on every output net, as a function of its
/// state and its input nets, per the state table of the machine.
pub open spec fn control_eval(
    state: States,
    funct3: Seq<Option<u8>>,
    funct7: Seq<Option<u8>>,
    opcode: Seq<Option<u8>>,
    cmp_out: Seq<Option<u8>>,
    mem_addr: Seq<Option<u8>>,
    mem_resp: Seq<Option<u8>>,
) -> CtlView {
    let d = CtlView { next_state: next_state_spec(state, opcode, mem_resp), ..ctl_defaults() };
    match state {
        States::Fetch => CtlView {
            mem_addr_mux_sel: sig(MEM_ADDR_SEL_PC),
            mem_read_en: sig(1),
            mem_rmask: rmask_spec(state, funct3, mem_addr),
            load_ir: if asserted(mem_resp) {
                sig(1)
            } else {
                sig(0)
            },
            ..d
        },
        States::Decode => d,
        States::Imm => {
            let with_pc = CtlView { load_pc: sig(1), pc_mux_sel: sig(PC_SEL_PLUS4), ..d };
            match (funct3[0], funct7[0]) {
                (Some(f3), Some(f7)) => if f3 == FUNCT3_SLT {
                    CtlView {
                        load_regfile: sig(1),
                        regfile_mux_sel: sig(RF_SEL_BR_EN),
                        cmp_mux_sel: sig(CMP_SEL_I_IMM),
                        cmp_op: sig(FUNCT3_BLT),
                        ..with_pc
                    }
                } else if f3 == FUNCT3_SLTU {
                    CtlView {
                        load_regfile: sig(1),
                        regfile_mux_sel: sig(RF_SEL_BR_EN),
                        cmp_mux_sel: sig(CMP_SEL_I_IMM),
                        cmp_op: sig(FUNCT3_BLTU),
                        ..with_pc
                    }
                } else if f3 == FUNCT3_SR {
                    CtlView {
                        load_regfile: sig(1),
                        regfile_mux_sel: sig(RF_SEL_ALU),
                        alu_mux1_sel: sig(ALU1_SEL_RS1),
                        alu_mux2_sel: sig(ALU2_SEL_I_IMM),
                        alu_op: if f7_bit5(f7) {
                            sig(ALU_SRA)
                        } else {
                            sig(ALU_SRL)
                        },
                        ..with_pc
                    }
                } else {
                    CtlView {
                        load_regfile: sig(1),
                        regfile_mux_sel: sig(RF_SEL_ALU),
                        alu_mux1_sel: sig(ALU1_SEL_RS1),
                        alu_mux2_sel: sig(ALU2_SEL_I_IMM),
                        alu_op: sig(f3),
                        ..with_pc
                    }
                },
                _ => with_pc,
            }
        },
        States::Reg => {
            let with_pc = CtlView { load_pc: sig(1), pc_mux_sel: sig(PC_SEL_PLUS4), ..d };
            match (funct3[0], funct7[0]) {
                (Some(f3), Some(f7)) => if f3 == FUNCT3_ADD {
                    CtlView {
                        load_regfile: sig(1),
                        regfile_mux_sel: sig(RF_SEL_ALU),
                        alu_mux1_sel: sig(ALU1_SEL_RS1),
                        alu_mux2_sel: sig(ALU2_SEL_RS2),
                        alu_op: if f7_bit5(f7) {
                            sig(ALU_SUB)
                        } else {
                            sig(ALU_ADD)
                        },
                        ..with_pc
                    }
                } else if f3 == FUNCT3_SR {
                    CtlView {
                        load_regfile: sig(1),
                        regfile_mux_sel: sig(RF_SEL_ALU),
                        alu_mux1_sel: sig(ALU1_SEL_RS1),
                        alu_mux2_sel: sig(ALU2_SEL_RS2),
                        alu_op: if f7_bit5(f7) {
                            sig(ALU_SRA)
                        } else {
                            sig(ALU_SRL)
                        },
                        ..with_pc
                    }
                } else if f3 == FUNCT3_SLT {
                    CtlView {
                        load_regfile: sig(1),
                        regfile_mux_sel: sig(RF_SEL_BR_EN),
                        cmp_mux_sel: sig(CMP_SEL_RS2),
                        cmp_op: sig(FUNCT3_BLT),
                        ..with_pc
                    }
                } else if f3 == FUNCT3_SLTU {
                    CtlView {
                        load_regfile: sig(1),
                        regfile_mux_sel: sig(RF_SEL_BR_EN),
                        cmp_mux_sel: sig(CMP_SEL_RS2),
                        cmp_op: sig(FUNCT3_BLTU),
                        ..with_pc
                    }
                } else {
                    CtlView {
                        load_regfile: sig(1),
                        regfile_mux_sel: sig(RF_SEL_ALU),
                        alu_mux1_sel: sig(ALU1_SEL_RS1),
                        alu_mux2_sel: sig(ALU2_SEL_RS2),
                        alu_op: sig(f3),
                        ..with_pc
                    }
                },
                _ => with_pc,
            }
        },
        States::Lui => CtlView {
            load_regfile: sig(1),
            regfile_mux_sel: sig(RF_SEL_U_IMM),
            load_pc: sig(1),
            pc_mux_sel: sig(PC_SEL_PLUS4),
            ..d
        },
        States::Br => {
            let with_alu = CtlView {
                alu_mux1_sel: sig(ALU1_SEL_PC),
                alu_mux2_sel: sig(ALU2_SEL_B_IMM),
                alu_op: sig(ALU_ADD),
                load_pc: sig(1),
                pc_mux_sel: if asserted(cmp_out) {
                    sig(PC_SEL_ALU)
                } else {
                    sig(PC_SEL_PLUS4)
                },
                ..d
            };
            match funct3[0] {
                Some(f3) => CtlView {
                    cmp_mux_sel: sig(CMP_SEL_RS2),
                    cmp_op: sig(f3),
                    ..with_alu
                },
                None => with_alu,
            }
        },
        States::Auipc => {
            let with_alu = CtlView {
                load_regfile: sig(1),
                regfile_mux_sel: sig(RF_SEL_ALU),
                alu_mux1_sel: sig(ALU1_SEL_PC),
                alu_mux2_sel: sig(ALU2_SEL_U_IMM),
                alu_op: sig(ALU_ADD),
                load_pc: sig(1),
                pc_mux_sel: sig(PC_SEL_PLUS4),
                ..d
            };
            match funct3[0] {
                Some(f3) => CtlView {
                    cmp_mux_sel: sig(CMP_SEL_RS2),
                    cmp_op: sig(f3),
                    ..with_alu
                },
                None => with_alu,
            }
        },
        States::Load => {
            let base = CtlView {
                mem_addr_mux_sel: sig(MEM_ADDR_SEL_ALU),
                alu_mux1_sel: sig(ALU1_SEL_RS1),
                alu_mux2_sel: sig(ALU2_SEL_I_IMM),
                alu_op: sig(ALU_ADD),
                mem_read_en: sig(1),
                mem_rmask: rmask_spec(state, funct3, mem_addr),
                ..d
            };
            if asserted(mem_resp) {
                let with_pc = CtlView { load_pc: sig(1), pc_mux_sel: sig(PC_SEL_PLUS4), ..base };
                match funct3[0] {
                    Some(f3) => if f3 == FUNCT3_LB {
                        CtlView { load_regfile: sig(1), regfile_mux_sel: sig(RF_SEL_LB), ..with_pc }
                    } else if f3 == FUNCT3_LH {
                        CtlView { load_regfile: sig(1), regfile_mux_sel: sig(RF_SEL_LH), ..with_pc }
                    } else if f3 == FUNCT3_LW {
                        CtlView { load_regfile: sig(1), regfile_mux_sel: sig(RF_SEL_LW), ..with_pc }
                    } else if f3 == FUNCT3_LBU {
                        CtlView {
                            load_regfile: sig(1),
                            regfile_mux_sel: sig(RF_SEL_LBU),
                            ..with_pc
                        }
                    } else if f3 == FUNCT3_LHU {
                        CtlView {
                            load_regfile: sig(1),
                            regfile_mux_sel: sig(RF_SEL_LHU),
                            ..with_pc
                        }
                    } else {
                        with_pc
                    },
                    None => with_pc,
                }
            } else {
                base
            }
        },
        States::Store => {
            let base = CtlView {
                mem_addr_mux_sel: sig(MEM_ADDR_SEL_ALU),
                alu_mux1_sel: sig(ALU1_SEL_RS1),
                alu_mux2_sel: sig(ALU2_SEL_S_IMM),
                alu_op: sig(ALU_ADD),
                mem_write_en: sig(1),
                mem_wmask: wmask_spec(funct3, mem_addr),
                ..d
            };
            if asserted(mem_resp) {
                CtlView { load_pc: sig(1), pc_mux_sel: sig(PC_SEL_PLUS4), ..base }
            } else {
                base
            }
        },
        States::Jal => CtlView {
            load_pc: sig(1),
            pc_mux_sel: sig(PC_SEL_ALU),
            alu_mux1_sel: sig(ALU1_SEL_PC),
            alu_mux2_sel: sig(ALU2_SEL_J_IMM),
            alu_op: sig(ALU_ADD),
            load_regfile: sig(1),
            regfile_mux_sel: sig(RF_SEL_PC_PLUS4),
            ..d
        },
        States::Jalr => CtlView {
            load_pc: sig(1),
            pc_mux_sel: sig(PC_SEL_ALU_MOD2),
            alu_mux1_sel: sig(ALU1_SEL_RS1),
            alu_mux2_sel: sig(ALU2_SEL_I_IMM),
            alu_op: sig(ALU_ADD),
            load_regfile: sig(1),
            regfile_mux_sel: sig(RF_SEL_PC_PLUS4),
            ..d
        },
    }
}

/// The control finite state machine; its only state is the current FSM
/// state.
pub struct Control {
    /// The machine's current state.
    pub state: States,
}

impl Control {
    /// Builds the machine in the `Fetch` state.
    pub fn new() -> (r: Control)
        ensures
            r.state == States::Fetch,
    {
        Control { state: States::Fetch }
    }

    /// Returns to the `Fetch` state.
    pub fn reset(&mut self)
        ensures
            final(self).state == States::Fetch,
    {
        self.state = States::Fetch;
    }

    /// On the clock edge, commits the combinationally computed next state.
    pub fn on_clock(&mut self, next: States)
        ensures
            final(self).state == next,
    {
        self.state = next;
    }

    /// The read mask for the current access, from the state, funct3 and
    /// effective-address nets.
    pub fn get_rmask(&self, funct3: &Bytes, mem_addr: &Bytes) -> (r: Bytes)
        requires
            wf_byte(funct3@),
            wf_word(mem_addr@),
        ensures
            r@ == rmask_spec(self.state, funct3@, mem_addr@),
    {
        if matches!(self.state, States::Fetch) {
            Bytes::of_byte(0x0F)
        } else {
            match funct3.to_u8() {
                Some(c) => {
                    if c == FUNCT3_LW {
                        Bytes::of_byte(0x0F)
                    } else if c == FUNCT3_LH || c == FUNCT3_LHU {
                        Bytes::of_byte(0x03).shl(&mem_addr.and(&Bytes::of_byte(0x03)))
                    } else if c == FUNCT3_LB || c == FUNCT3_LBU {
                        Bytes::of_byte(0x01).shl(&mem_addr.and(&Bytes::of_byte(0x03)))
                    } else {
                        Bytes::unknown(1)
                    }
                },
                None => Bytes::unknown(1),
            }
        }
    }

    /// The write mask for a store, from the funct3 and effective-address
    /// nets.
    pub fn get_wmask(&self, funct3: &Bytes, mem_addr: &Bytes) -> (r: Bytes)
        requires
            wf_byte(funct3@),
            wf_word(mem_addr@),
        ensures
            r@ == wmask_spec(funct3@, mem_addr@),
    {
        match funct3.to_u8() {
            Some(c) => {
                if c == FUNCT3_SW {
                    Bytes::of_byte(0x0F)
                } else if c == FUNCT3_SH {
                    Bytes::of_byte(0x03).shl(&mem_addr.and(&Bytes::of_byte(0x03)))
                } else if c == FUNCT3_SB {
                    Bytes::of_byte(0x01).shl(&mem_addr.and(&Bytes::of_byte(0x03)))
                } else {
                    Bytes::unknown(1)
                }
            },
            None => Bytes::unknown(1),
        }
    }

    /// One combinational pass: every output net as the state table gives
    /// it, and the next state.
    pub fn on_comb(
        &self,
        funct3: &Bytes,
        funct7: &Bytes,
        opcode: &Bytes,
        cmp_out: &Bytes,
        mem_addr: &Bytes,
        mem_resp: &Bytes,
    ) -> (out: ControlSignals)
        requires
            wf_byte(funct3@),
            wf_byte(funct7@),
            wf_byte(opcode@),
            wf_word(cmp_out@),
            wf_word(mem_addr@),
            wf_byte(mem_resp@),
        ensures
            out@ == control_eval(
                self.state,
                funct3@,
                funct7@,
                opcode@,
                cmp_out@,
                mem_addr@,
                mem_resp@,
            ),
    {
        let next = self.next_state(opcode, mem_resp);
        let mut out = ControlSignals {
            load_pc: Bytes::of_byte(0),
            load_ir: Bytes::of_byte(0),
            load_regfile: Bytes::of_byte(0),
            alu_op: Bytes::unknown(1),
            cmp_op: Bytes::unknown(1),
            pc_mux_sel: Bytes::unknown(1),
            alu_mux1_sel: Bytes::unknown(1),
            alu_mux2_sel: Bytes::unknown(1),
            regfile_mux_sel: Bytes::unknown(1),
            mem_addr_mux_sel: Bytes::unknown(1),
            cmp_mux_sel: Bytes::unknown(1),
            mem_read_en: Bytes::of_byte(0),
            mem_rmask: Bytes::of_byte(0),
            mem_write_en: Bytes::of_byte(0),
            mem_wmask: Bytes::of_byte(0),
            next_state: next,
        };
        match self.state {
            States::Fetch => {
                out.mem_addr_mux_sel = Bytes::of_byte(MEM_ADDR_SEL_PC);
                out.mem_read_en = Bytes::of_byte(1);
                out.mem_rmask = self.get_rmask(funct3, mem_addr);
                if mem_resp.is_something_nonzero() {
                    out.load_ir = Bytes::of_byte(1);
                }
            },
            States::Decode => {},
            States::Imm => {
                match (funct3.to_u8(), funct7.to_u8()) {
                    (Some(f3), Some(f7)) => {
                        if f3 == FUNCT3_SLT {
                            out.load_regfile = Bytes::of_byte(1);
                            out.regfile_mux_sel = Bytes::of_byte(RF_SEL_BR_EN);
                            out.cmp_mux_sel = Bytes::of_byte(CMP_SEL_I_IMM);
                            out.cmp_op = Bytes::of_byte(FUNCT3_BLT);
                        } else if f3 == FUNCT3_SLTU {
                            out.load_regfile = Bytes::of_byte(1);
                            out.regfile_mux_sel = Bytes::of_byte(RF_SEL_BR_EN);
                            out.cmp_mux_sel = Bytes::of_byte(CMP_SEL_I_IMM);
                            out.cmp_op = Bytes::of_byte(FUNCT3_BLTU);
                        } else if f3 == FUNCT3_SR {
                            out.load_regfile = Bytes::of_byte(1);
                            out.regfile_mux_sel = Bytes::of_byte(RF_SEL_ALU);
                            out.alu_mux1_sel = Bytes::of_byte(ALU1_SEL_RS1);
                            out.alu_mux2_sel = Bytes::of_byte(ALU2_SEL_I_IMM);
                            out.alu_op = if (f7 >> 5) & 0x1 == 0x1 {
                                proof {
                                    assert((f7 >> 5) & 0x1 == 0x1 ==> (f7 / 32) % 2 == 1)
                                        by (bit_vector);
                                }
                                Bytes::of_byte(ALU_SRA)
                            } else {
                                proof {
                                    assert((f7 >> 5) & 0x1 != 0x1 ==> (f7 / 32) % 2 != 1)
                                        by (bit_vector);
                                }
                                Bytes::of_byte(ALU_SRL)
                            };
                        } else {
                            out.load_regfile = Bytes::of_byte(1);
                            out.regfile_mux_sel = Bytes::of_byte(RF_SEL_ALU);
                            out.alu_mux1_sel = Bytes::of_byte(ALU1_SEL_RS1);
                            out.alu_mux2_sel = Bytes::of_byte(ALU2_SEL_I_IMM);
                            out.alu_op = Bytes::of_byte(f3);
                        }
                    },
                    _ => {},
                }
                out.load_pc = Bytes::of_byte(1);
                out.pc_mux_sel = Bytes::of_byte(PC_SEL_PLUS4);
            },
            States::Reg => {
                match (funct3.to_u8(), funct7.to_u8()) {
                    (Some(f3), Some(f7)) => {
                        if f3 == FUNCT3_ADD {
                            out.load_regfile = Bytes::of_byte(1);
                            out.regfile_mux_sel = Bytes::of_byte(RF_SEL_ALU);
                            out.alu_mux1_sel = Bytes::of_byte(ALU1_SEL_RS1);
                            out.alu_mux2_sel = Bytes::of_byte(ALU2_SEL_RS2);
                            out.alu_op = if (f7 >> 5) & 0x1 == 0x1 {
                                proof {
                                    assert((f7 >> 5) & 0x1 == 0x1 ==> (f7 / 32) % 2 == 1)
                                        by (bit_vector);
                                }
                                Bytes::of_byte(ALU_SUB)
                            } else {
                                proof {
                                    assert((f7 >> 5) & 0x1 != 0x1 ==> (f7 / 32) % 2 != 1)
                                        by (bit_vector);
                                }
                                Bytes::of_byte(ALU_ADD)
                            };
                        } else if f3 == FUNCT3_SR {
                            out.load_regfile = Bytes::of_byte(1);
                            out.regfile_mux_sel = Bytes::of_byte(RF_SEL_ALU);
                            out.alu_mux1_sel = Bytes::of_byte(ALU1_SEL_RS1);
                            out.alu_mux2_sel = Bytes::of_byte(ALU2_SEL_RS2);
                            out.alu_op = if (f7 >> 5) & 0x1 == 0x1 {
                                proof {
                                    assert((f7 >> 5) & 0x1 == 0x1 ==> (f7 / 32) % 2 == 1)
                                        by (bit_vector);
                                }
                                Bytes::of_byte(ALU_SRA)
                            } else {
                                proof {
                                    assert((f7 >> 5) & 0x1 != 0x1 ==> (f7 / 32) % 2 != 1)
                                        by (bit_vector);
                                }
                                Bytes::of_byte(ALU_SRL)
                            };
                        } else if f3 == FUNCT3_SLT {
                            out.load_regfile = Bytes::of_byte(1);
                            out.regfile_mux_sel = Bytes::of_byte(RF_SEL_BR_EN);
                            out.cmp_mux_sel = Bytes::of_byte(CMP_SEL_RS2);
                            out.cmp_op = Bytes::of_byte(FUNCT3_BLT);
                        } else if f3 == FUNCT3_SLTU {
                            out.load_regfile = Bytes::of_byte(1);
                            out.regfile_mux_sel = Bytes::of_byte(RF_SEL_BR_EN);
                            out.cmp_mux_sel = Bytes::of_byte(CMP_SEL_RS2);
                            out.cmp_op = Bytes::of_byte(FUNCT3_BLTU);
                        } else {
                            out.load_regfile = Bytes::of_byte(1);
                            out.regfile_mux_sel = Bytes::of_byte(RF_SEL_ALU);
                            out.alu_mux1_sel = Bytes::of_byte(ALU1_SEL_RS1);
                            out.alu_mux2_sel = Bytes::of_byte(ALU2_SEL_RS2);
                            out.alu_op = Bytes::of_byte(f3);
                        }
                    },
                    _ => {},
                }
                out.load_pc = Bytes::of_byte(1);
                out.pc_mux_sel = Bytes::of_byte(PC_SEL_PLUS4);
            },
            States::Lui => {
                out.load_regfile = Bytes::of_byte(1);
                out.regfile_mux_sel = Bytes::of_byte(RF_SEL_U_IMM);
                out.load_pc = Bytes::of_byte(1);
                out.pc_mux_sel = Bytes::of_byte(PC_SEL_PLUS4);
            },
            States::Br => {
                out.alu_mux1_sel = Bytes::of_byte(ALU1_SEL_PC);
                out.alu_mux2_sel = Bytes::of_byte(ALU2_SEL_B_IMM);
                out.alu_op = Bytes::of_byte(ALU_ADD);
                match funct3.to_u8() {
                    Some(f3) => {
                        out.cmp_mux_sel = Bytes::of_byte(CMP_SEL_RS2);
                        out.cmp_op = Bytes::of_byte(f3);
                    },
                    None => {},
                }
                out.load_pc = Bytes::of_byte(1);
                out.pc_mux_sel = if cmp_out.is_something_nonzero() {
                    Bytes::of_byte(PC_SEL_ALU)
                } else {
                    Bytes::of_byte(PC_SEL_PLUS4)
                };
            },
            States::Auipc => {
                out.load_regfile = Bytes::of_byte(1);
                out.regfile_mux_sel = Bytes::of_byte(RF_SEL_ALU);
                out.alu_mux1_sel = Bytes::of_byte(ALU1_SEL_PC);
                out.alu_mux2_sel = Bytes::of_byte(ALU2_SEL_U_IMM);
                out.alu_op = Bytes::of_byte(ALU_ADD);
                match funct3.to_u8() {
                    Some(f3) => {
                        out.cmp_mux_sel = Bytes::of_byte(CMP_SEL_RS2);
                        out.cmp_op = Bytes::of_byte(f3);
                    },
                    None => {},
                }
                out.load_pc = Bytes::of_byte(1);
                out.pc_mux_sel = Bytes::of_byte(PC_SEL_PLUS4);
            },
            States::Load => {
                out.mem_addr_mux_sel = Bytes::of_byte(MEM_ADDR_SEL_ALU);
                out.alu_mux1_sel = Bytes::of_byte(ALU1_SEL_RS1);
                out.alu_mux2_sel = Bytes::of_byte(ALU2_SEL_I_IMM);
                out.alu_op = Bytes::of_byte(ALU_ADD);
                out.mem_read_en = Bytes::of_byte(1);
                out.mem_rmask = self.get_rmask(funct3, mem_addr);
                if mem_resp.is_something_nonzero() {
                    match funct3.to_u8() {
                        Some(f3) => {
                            if f3 == FUNCT3_LB {
                                out.load_regfile = Bytes::of_byte(1);
                                out.regfile_mux_sel = Bytes::of_byte(RF_SEL_LB);
                            } else if f3 == FUNCT3_LH {
                                out.load_regfile = Bytes::of_byte(1);
                                out.regfile_mux_sel = Bytes::of_byte(RF_SEL_LH);
                            } else if f3 == FUNCT3_LW {
                                out.load_regfile = Bytes::of_byte(1);
                                out.regfile_mux_sel = Bytes::of_byte(RF_SEL_LW);
                            } else if f3 == FUNCT3_LBU {
                                out.load_regfile = Bytes::of_byte(1);
                                out.regfile_mux_sel = Bytes::of_byte(RF_SEL_LBU);
                            } else if f3 == FUNCT3_LHU {
                                out.load_regfile = Bytes::of_byte(1);
                                out.regfile_mux_sel = Bytes::of_byte(RF_SEL_LHU);
                            }
                        },
                        None => {},
                    }
                    out.load_pc = Bytes::of_byte(1);
                    out.pc_mux_sel = Bytes::of_byte(PC_SEL_PLUS4);
                }
            },
            States::Store => {
                out.mem_addr_mux_sel = Bytes::of_byte(MEM_ADDR_SEL_ALU);
                out.alu_mux1_sel = Bytes::of_byte(ALU1_SEL_RS1);
                out.alu_mux2_sel = Bytes::of_byte(ALU2_SEL_S_IMM);
                out.alu_op = Bytes::of_byte(ALU_ADD);
                out.mem_write_en = Bytes::of_byte(1);
                out.mem_wmask = self.get_wmask(funct3, mem_addr);
                if mem_resp.is_something_nonzero() {
                    out.load_pc = Bytes::of_byte(1);
                    out.pc_mux_sel = Bytes::of_byte(PC_SEL_PLUS4);
                }
            },
            States::Jal => {
                out.load_pc = Bytes::of_byte(1);
                out.pc_mux_sel = Bytes::of_byte(PC_SEL_ALU);
                out.alu_mux1_sel = Bytes::of_byte(ALU1_SEL_PC);
                out.alu_mux2_sel = Bytes::of_byte(ALU2_SEL_J_IMM);
                out.alu_op = Bytes::of_byte(ALU_ADD);
                out.load_regfile = Bytes::of_byte(1);
                out.regfile_mux_sel = Bytes::of_byte(RF_SEL_PC_PLUS4);
            },
            States::Jalr => {
                out.load_pc = Bytes::of_byte(1);
                out.pc_mux_sel = Bytes::of_byte(PC_SEL_ALU_MOD2);
                out.alu_mux1_sel = Bytes::of_byte(ALU1_SEL_RS1);
                out.alu_mux2_sel = Bytes::of_byte(ALU2_SEL_I_IMM);
                out.alu_op = Bytes::of_byte(ALU_ADD);
                out.load_regfile = Bytes::of_byte(1);
                out.regfile_mux_sel = Bytes::of_byte(RF_SEL_PC_PLUS4);
            },
        }
        out
    }

    /// The state entered at the next clock edge.
    fn next_state(&self, opcode: &Bytes, mem_resp: &Bytes) -> (next: States)
        requires
            wf_byte(opcode@),
            wf_byte(mem_resp@),
        ensures
            next == next_state_spec(self.state, opcode@, mem_resp@),
    {
        match self.state {
            States::Fetch => {
                if mem_resp.is_something_nonzero() {
                    States::Decode
                } else {
                    States::Fetch
                }
            },
            States::Decode => {
                match opcode.to_u8() {
                    Some(c) => {
                        if c == OPCODE_LUI {
                            States::Lui
                        } else if c == OPCODE_AUIPC {
                            States::Auipc
                        } else if c == OPCODE_JAL {
                            States::Jal
                        } else if c == OPCODE_JALR {
                            States::Jalr
                        } else if c == OPCODE_BR {
                            States::Br
                        } else if c == OPCODE_LOAD {
                            States::Load
                        } else if c == OPCODE_STORE {
                            States::Store
                        } else if c == OPCODE_IMM {
                            States::Imm
                        } else if c == OPCODE_REG {
                            States::Reg
                        } else {
                            States::Fetch
                        }
                    },
                    None => States::Fetch,
                }
            },
            States::Load => {
                if mem_resp.is_something_nonzero() {
                    States::Fetch
                } else {
                    States::Load
                }
            },
            States::Store => {
                if mem_resp.is_something_nonzero() {
                    States::Fetch
                } else {
                    States::Store
                }
            },
            _ => States::Fetch,
        }
    }
}

/// From `Fetch`, every RV32I opcode leads back to `Fetch` in a bounded
/// number of state transitions: two responded fetch-and-decode steps reach
/// the opcode's execute state, and from there one step — with the memory's
/// response asserted in `Load` and `Store` — returns to `Fetch`.
pub proof fn lemma_fsm_returns_to_fetch(
    opcode: Seq<Option<u8>>,
    mem_resp: Seq<Option<u8>>,
    any_opcode: Seq<Option<u8>>,
    any_resp: Seq<Option<u8>>,
)
    requires
        asserted(mem_resp),
    ensures
        next_state_spec(States::Fetch, any_opcode, mem_resp) == States::Decode,
        ({
            let ex = next_state_spec(States::Decode, opcode, any_resp);
            ex == States::Fetch || next_state_spec(ex, any_opcode, mem_resp) == States::Fetch
        }),
{
}

} // verus!
