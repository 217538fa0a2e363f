//! The core assembly: all components wired per the datapath topology, a
//! deterministic per-cycle scheduler, and the driver interface.
//!
//! The combinational portion of the datapath is acyclic, so one settling
//! pass in dependency order computes the unique fixed point of the
//! combinational graph each cycle. The control unit is evaluated twice in
//! that pass: its selector and operation outputs depend only on its state
//! and the instruction fields, while its masks, load enables and the
//! program-counter selector also need the settled effective address and
//! comparison result; nothing between the two passes consumes the values
//! the second pass replaces. The clock edge then commits every clocked
//! component from the settled net values, the memory controller last so
//! that the registers latch the data the previous edge produced.

use crate::alu::{alu_eval, alu_mux1_eval, alu_mux2_eval, word_of, Alu, AluMux1, AluMux2};
use crate::bytes::{
    add_bytes, all_known, asserted, from_nat, le_val, unknown_seq, zero_seq, Bytes,
};
use crate::cmp::{cmp_eval, cmp_mux_eval, Cmp, CmpMux};
use crate::control::{control_eval, Control, ControlSignals, CtlView};
use crate::ir::{ir_field, ir_imm, ir_u_imm, j_imm_raw, s_imm_raw, b_imm_raw, IrOutputs, IR};
use crate::ir::{HALT_MAGIC_NOP, HALT_SELF_LOOP};
use crate::mem_addr_mux::{mem_addr_mux_eval, MemAddrMux};
use crate::mem_ctl::{
    mem_step, word_val, KeyboardMmioCtl, MemCtl, MemView, MmioDevice, VgaMmioCtl, KB_DATA_ADDR,
    KB_STATUS_ADDR, VGA_BASE_ADDR, VGA_NUM_BYTES,
};
use crate::pc::{latched, pc_mux_eval, Pc, PcMux, STARTING_PC};
use crate::regfile::{
    regs_read, regs_write, rf_mux_eval, wf_reg_idx, wf_regs, RegFile, RegFileMux,
};
use crate::types::{wf_byte, wf_word, States};
use vstd::arithmetic::power2::pow2;
use vstd::prelude::*;

verus! {

/// The settled values of every net after one combinational pass.
pub struct Nets {
    pub ir_out: IrOutputs,
    pub pc_out: Bytes,
    pub ctl: ControlSignals,
    pub rs1_data: Bytes,
    pub rs2_data: Bytes,
    pub alu_mux1_out: Bytes,
    pub alu_mux2_out: Bytes,
    pub alu_out: Bytes,
    pub cmp_mux_out: Bytes,
    pub cmp_out: Bytes,
    pub mem_addr_mux_out: Bytes,
    pub pc_mux_out: Bytes,
    pub regfile_mux_out: Bytes,
}

/// The mathematical model of the settled nets.
pub struct NetsV {
    pub funct3: Seq<Option<u8>>,
    pub funct7: Seq<Option<u8>>,
    pub opcode: Seq<Option<u8>>,
    pub i_imm: Seq<Option<u8>>,
    pub s_imm: Seq<Option<u8>>,
    pub b_imm: Seq<Option<u8>>,
    pub u_imm: Seq<Option<u8>>,
    pub j_imm: Seq<Option<u8>>,
    pub rs1: Seq<Option<u8>>,
    pub rs2: Seq<Option<u8>>,
    pub rd: Seq<Option<u8>>,
    pub pc_out: Seq<Option<u8>>,
    pub ctl: CtlView,
    pub rs1_data: Seq<Option<u8>>,
    pub rs2_data: Seq<Option<u8>>,
    pub alu_mux1_out: Seq<Option<u8>>,
    pub alu_mux2_out: Seq<Option<u8>>,
    pub alu_out: Seq<Option<u8>>,
    pub cmp_mux_out: Seq<Option<u8>>,
    pub cmp_out: Seq<Option<u8>>,
    pub mem_addr_mux_out: Seq<Option<u8>>,
    pub pc_mux_out: Seq<Option<u8>>,
    pub regfile_mux_out: Seq<Option<u8>>,
}

impl View for Nets {
    type V = NetsV;

    open spec fn view(&self) -> NetsV {
        NetsV {
            funct3: self.ir_out.funct3@,
            funct7: self.ir_out.funct7@,
            opcode: self.ir_out.opcode@,
            i_imm: self.ir_out.i_imm@,
            s_imm: self.ir_out.s_imm@,
            b_imm: self.ir_out.b_imm@,
            u_imm: self.ir_out.u_imm@,
            j_imm: self.ir_out.j_imm@,
            rs1: self.ir_out.rs1@,
            rs2: self.ir_out.rs2@,
            rd: self.ir_out.rd@,
            pc_out: self.pc_out@,
            ctl: self.ctl@,
            rs1_data: self.rs1_data@,
            rs2_data: self.rs2_data@,
            alu_mux1_out: self.alu_mux1_out@,
            alu_mux2_out: self.alu_mux2_out@,
            alu_out: self.alu_out@,
            cmp_mux_out: self.cmp_mux_out@,
            cmp_out: self.cmp_out@,
            mem_addr_mux_out: self.mem_addr_mux_out@,
            pc_mux_out: self.pc_mux_out@,
            regfile_mux_out: self.regfile_mux_out@,
        }
    }
}

/// The architectural model of the whole core.
pub struct CoreView {
    pub pc: Seq<Option<u8>>,
    pub ir: Seq<Option<u8>>,
    pub state: States,
    pub regs: Seq<Seq<Option<u8>>>,
    pub mem: MemView,
}

/// Well-formedness of the architectural model: every register and word net
/// a word wide, the memory controller's output nets a word and a byte.
pub open spec fn wf_core(c: CoreView) -> bool {
    &&& wf_word(c.pc)
    &&& wf_word(c.ir)
    &&& wf_regs(c.regs)
    &&& wf_word(c.mem.rdata)
    &&& wf_byte(c.mem.resp)
}

/// What one settling pass puts on every net, as a function of the
/// architectural state. The first control evaluation (`ctl_a`) feeds the
/// operand multiplexers; only its selector and operation outputs are
/// consumed, and those do not depend on the comparison result or the
/// effective address, so the second evaluation is the fixed point.
pub open spec fn nets_spec(c: CoreView) -> NetsV {
    let funct3 = ir_field(c.ir, 12, 8);
    let funct7 = ir_field(c.ir, 25, 128);
    let opcode = ir_field(c.ir, 0, 128);
    let rs1 = ir_field(c.ir, 15, 32);
    let rs2 = ir_field(c.ir, 20, 32);
    let rd = ir_field(c.ir, 7, 32);
    let i_imm = ir_imm(c.ir, le_val(c.ir) / pow2(20), 11);
    let s_imm = ir_imm(c.ir, s_imm_raw(le_val(c.ir)), 11);
    let b_imm = ir_imm(c.ir, b_imm_raw(le_val(c.ir)), 12);
    let u_imm = ir_u_imm(c.ir);
    let j_imm = ir_imm(c.ir, j_imm_raw(le_val(c.ir)), 20);
    let pc_out = c.pc;
    let ctl_a = control_eval(
        c.state,
        funct3,
        funct7,
        opcode,
        unknown_seq(4),
        unknown_seq(4),
        c.mem.resp,
    );
    let rs1_data = regs_read(c.regs, rs1);
    let rs2_data = regs_read(c.regs, rs2);
    let alu_mux1_out = alu_mux1_eval(rs1_data, pc_out, ctl_a.alu_mux1_sel);
    let alu_mux2_out = alu_mux2_eval(
        i_imm,
        u_imm,
        b_imm,
        s_imm,
        j_imm,
        rs2_data,
        ctl_a.alu_mux2_sel,
    );
    let alu_out = alu_eval(alu_mux1_out, alu_mux2_out, ctl_a.alu_op);
    let cmp_mux_out = cmp_mux_eval(rs2_data, i_imm, ctl_a.cmp_mux_sel);
    let cmp_out = cmp_eval(rs1_data, cmp_mux_out, ctl_a.cmp_op);
    let mem_addr_mux_out = mem_addr_mux_eval(pc_out, alu_out, ctl_a.mem_addr_mux_sel);
    let ctl = control_eval(c.state, funct3, funct7, opcode, cmp_out, mem_addr_mux_out, c.mem.resp);
    let pc_mux_out = pc_mux_eval(pc_out, alu_out, ctl.pc_mux_sel);
    let regfile_mux_out = rf_mux_eval(
        alu_out,
        cmp_out,
        u_imm,
        mem_addr_mux_out,
        c.mem.rdata,
        pc_out,
        ctl.regfile_mux_sel,
    );
    NetsV {
        funct3,
        funct7,
        opcode,
        i_imm,
        s_imm,
        b_imm,
        u_imm,
        j_imm,
        rs1,
        rs2,
        rd,
        pc_out,
        ctl: ctl,
        rs1_data,
        rs2_data,
        alu_mux1_out,
        alu_mux2_out,
        alu_out,
        cmp_mux_out,
        cmp_out,
        mem_addr_mux_out,
        pc_mux_out,
        regfile_mux_out,
    }
}

/// The net widths the clock edge relies on: word nets a word wide, the
/// control signals a byte wide, and the destination index a valid register
/// index.
pub open spec fn wf_nets(n: NetsV) -> bool {
    &&& wf_byte(n.ctl.load_ir)
    &&& wf_byte(n.ctl.load_pc)
    &&& wf_byte(n.ctl.load_regfile)
    &&& wf_byte(n.ctl.mem_read_en)
    &&& wf_byte(n.ctl.mem_rmask)
    &&& wf_byte(n.ctl.mem_write_en)
    &&& wf_byte(n.ctl.mem_wmask)
    &&& wf_word(n.pc_mux_out)
    &&& wf_word(n.regfile_mux_out)
    &&& wf_word(n.mem_addr_mux_out)
    &&& wf_word(n.rs2_data)
    &&& wf_reg_idx(n.rd)
}

/// What the clock edge commits, given the settled nets: the instruction
/// register latches the memory's read data, the program counter its
/// multiplexer, the register file writes its destination, the control
/// machine advances, and the memory controller serves the request on its
/// address, data and mask nets.
pub open spec fn tick_spec(c: CoreView, n: NetsV) -> CoreView {
    CoreView {
        ir: latched(c.ir, n.ctl.load_ir, c.mem.rdata),
        pc: latched(c.pc, n.ctl.load_pc, n.pc_mux_out),
        regs: if n.ctl.load_regfile == zero_seq(1) {
            c.regs
        } else {
            regs_write(c.regs, n.rd, n.regfile_mux_out)
        },
        state: n.ctl.next_state,
        mem: mem_step(
            c.mem,
            n.mem_addr_mux_out,
            n.rs2_data,
            n.ctl.mem_read_en,
            n.ctl.mem_rmask,
            n.ctl.mem_write_en,
            n.ctl.mem_wmask,
        ),
    }
}

/// One whole cycle: the combinational settle followed by the clock edge.
pub open spec fn cycle_spec(c: CoreView) -> CoreView {
    tick_spec(c, nets_spec(c))
}

/// `n` cycles from `c`.
pub open spec fn run_steps(c: CoreView, n: nat) -> CoreView
    decreases n,
{
    if n == 0 {
        c
    } else {
        cycle_spec(run_steps(c, (n - 1) as nat))
    }
}

/// The latched instruction is one of the two terminating encodings.
pub open spec fn halted(c: CoreView) -> bool {
    c.ir == from_nat(4, HALT_MAGIC_NOP as nat) || c.ir == from_nat(4, HALT_SELF_LOOP as nat)
}

/// A copy of the externally observable state at a cycle boundary.
pub struct CoreSnapshot {
    pub pc: Bytes,
    pub ir: Bytes,
    pub state: States,
    pub state_name: String,
    pub registers: Vec<Bytes>,
    pub framebuffer: Vec<u8>,
}

/// The whole simulated machine.
pub struct Core {
    pub pc: Pc,
    pub pc_mux: PcMux,
    pub ir: IR,
    pub control: Control,
    pub regfile: RegFile,
    pub regfile_mux: RegFileMux,
    pub alu: Alu,
    pub alu_mux1: AluMux1,
    pub alu_mux2: AluMux2,
    pub cmp: Cmp,
    pub cmp_mux: CmpMux,
    pub mem_addr_mux: MemAddrMux,
    pub mem_ctl: MemCtl,
}

impl View for Core {
    type V = CoreView;

    open spec fn view(&self) -> CoreView {
        CoreView {
            pc: self.pc.data_inner@,
            ir: self.ir.data_inner@,
            state: self.control.state,
            regs: self.regfile.registers@,
            mem: self.mem_ctl@,
        }
    }
}

/// A register-index net decoded by the instruction register is a valid
/// index.
proof fn lemma_ir_reg_idx(w: Seq<Option<u8>>)
    ensures
        wf_reg_idx(ir_field(w, 15, 32)),
        wf_reg_idx(ir_field(w, 20, 32)),
        wf_reg_idx(ir_field(w, 7, 32)),
{
}

impl Core {
    /// Builds the machine at its power-on state: the program counter at the
    /// conventional base, registers zero, empty memory, and the keyboard
    /// and framebuffer devices installed over their conventional ranges.
    pub fn new() -> (r: Core)
        ensures
            r@.pc == from_nat(4, STARTING_PC as nat),
            r@.ir == unknown_seq(4),
            r@.state == States::Fetch,
            r@.regs == Seq::new(32, |i: int| zero_seq(4)),
            r@.mem.mem == Map::<u32, u8>::empty(),
            r@.mem.kb_start == KB_STATUS_ADDR && r@.mem.kb_end == KB_DATA_ADDR + 1,
            r@.mem.vga_start == VGA_BASE_ADDR && r@.mem.vga_end == VGA_BASE_ADDR
                + VGA_NUM_BYTES as u32,
            r@.mem.kb == Seq::<u8>::empty(),
            r@.mem.vga == crate::mem_ctl::vga_reset_seq(),
            !r@.mem.busy,
            r@.mem.rdata == unknown_seq(4),
            r@.mem.resp == unknown_seq(1),
            wf_core(r@),
    {
        let mut mem_ctl = MemCtl::new();
        mem_ctl.install_mmio_ctl(
            KB_STATUS_ADDR,
            KB_DATA_ADDR + 1,
            MmioDevice::Keyboard(KeyboardMmioCtl::new()),
        );
        mem_ctl.install_mmio_ctl(
            VGA_BASE_ADDR,
            VGA_BASE_ADDR + VGA_NUM_BYTES as u32,
            MmioDevice::Vga(VgaMmioCtl::new()),
        );
        Core {
            pc: Pc::new(),
            pc_mux: PcMux::new(),
            ir: IR::new(),
            control: Control::new(),
            regfile: RegFile::new(),
            regfile_mux: RegFileMux::new(),
            alu: Alu::new(),
            alu_mux1: AluMux1::new(),
            alu_mux2: AluMux2::new(),
            cmp: Cmp::new(),
            cmp_mux: CmpMux::new(),
            mem_addr_mux: MemAddrMux::new(),
            mem_ctl,
        }
    }

    /// Resets every component to its power-on state: the memory map and
    /// labels are cleared and the two devices are re-installed fresh.
    pub fn reset(&mut self)
        ensures
            final(self)@.pc == from_nat(4, STARTING_PC as nat),
            final(self)@.ir == unknown_seq(4),
            final(self)@.state == States::Fetch,
            final(self)@.regs == Seq::new(32, |i: int| zero_seq(4)),
            final(self)@.mem.mem == Map::<u32, u8>::empty(),
            final(self)@.mem.kb_start == KB_STATUS_ADDR && final(self)@.mem.kb_end == KB_DATA_ADDR
                + 1,
            final(self)@.mem.vga_start == VGA_BASE_ADDR && final(self)@.mem.vga_end
                == VGA_BASE_ADDR + VGA_NUM_BYTES as u32,
            final(self)@.mem.kb == Seq::<u8>::empty(),
            final(self)@.mem.vga == crate::mem_ctl::vga_reset_seq(),
            !final(self)@.mem.busy,
            final(self)@.mem.rdata == unknown_seq(4),
            final(self)@.mem.resp == unknown_seq(1),
            wf_core(final(self)@),
    {
        self.mem_ctl.reset();
        self.mem_ctl.install_mmio_ctl(
            KB_STATUS_ADDR,
            KB_DATA_ADDR + 1,
            MmioDevice::Keyboard(KeyboardMmioCtl::new()),
        );
        self.mem_ctl.install_mmio_ctl(
            VGA_BASE_ADDR,
            VGA_BASE_ADDR + VGA_NUM_BYTES as u32,
            MmioDevice::Vga(VgaMmioCtl::new()),
        );
        self.control.reset();
        self.ir.reset();
        self.pc.reset();
        self.regfile.reset();
    }

    /// One combinational settling pass over the acyclic datapath.
    #[verifier::rlimit(100)]
    pub fn settle(&self) -> (nets: Nets)
        requires
            wf_core(self@),
        ensures
            nets@ == nets_spec(self@),
            wf_nets(nets@),
    {
        let ir_out = self.ir.on_comb();
        let pc_out = self.pc.on_comb();
        let unknown_word_a = Bytes::unknown(4);
        let unknown_word_b = Bytes::unknown(4);
        let ctl_a = self.control.on_comb(
            &ir_out.funct3,
            &ir_out.funct7,
            &ir_out.opcode,
            &unknown_word_a,
            &unknown_word_b,
            &self.mem_ctl.resp,
        );
        proof {
            lemma_ir_reg_idx(self.ir.data_inner@);
        }
        let (rs1_data, rs2_data) = self.regfile.on_comb(&ir_out.rs1, &ir_out.rs2);
        let alu_mux1_out = self.alu_mux1.on_comb(&rs1_data, &pc_out, &ctl_a.alu_mux1_sel);
        let alu_mux2_out = self.alu_mux2.on_comb(
            &ir_out.i_imm,
            &ir_out.u_imm,
            &ir_out.b_imm,
            &ir_out.s_imm,
            &ir_out.j_imm,
            &rs2_data,
            &ctl_a.alu_mux2_sel,
        );
        let alu_out = self.alu.on_comb(&alu_mux1_out, &alu_mux2_out, &ctl_a.alu_op);
        let cmp_mux_out = self.cmp_mux.on_comb(&rs2_data, &ir_out.i_imm, &ctl_a.cmp_mux_sel);
        let cmp_out = self.cmp.on_comb(&rs1_data, &cmp_mux_out, &ctl_a.cmp_op);
        let mem_addr_mux_out = self.mem_addr_mux.on_comb(
            &pc_out,
            &alu_out,
            &ctl_a.mem_addr_mux_sel,
        );
        let ctl = self.control.on_comb(
            &ir_out.funct3,
            &ir_out.funct7,
            &ir_out.opcode,
            &cmp_out,
            &mem_addr_mux_out,
            &self.mem_ctl.resp,
        );
        let pc_mux_out = self.pc_mux.on_comb(&pc_out, &alu_out, &ctl.pc_mux_sel);
        let regfile_mux_out = self.regfile_mux.on_comb(
            &alu_out,
            &cmp_out,
            &ir_out.u_imm,
            &mem_addr_mux_out,
            &self.mem_ctl.rdata,
            &pc_out,
            &ctl.regfile_mux_sel,
        );
        Nets {
            ir_out,
            pc_out,
            ctl,
            rs1_data,
            rs2_data,
            alu_mux1_out,
            alu_mux2_out,
            alu_out,
            cmp_mux_out,
            cmp_out,
            mem_addr_mux_out,
            pc_mux_out,
            regfile_mux_out,
        }
    }

    /// The clock edge: every clocked component commits from the settled
    /// nets; the memory controller goes last so the registers latch the
    /// data produced by the previous edge.
    #[verifier::rlimit(100)]
    pub fn tick(&mut self, nets: &Nets)
        requires
            wf_core(old(self)@),
            wf_nets(nets@),
        ensures
            final(self)@ == tick_spec(old(self)@, nets@),
            wf_core(final(self)@),
    {
        let rdata = self.mem_ctl.rdata.clone();
        self.ir.on_clock(&nets.ctl.load_ir, &rdata);
        self.pc.on_clock(&nets.ctl.load_pc, &nets.pc_mux_out);
        self.regfile.on_clock(&nets.ctl.load_regfile, &nets.ir_out.rd, &nets.regfile_mux_out);
        self.control.on_clock(nets.ctl.next_state);
        self.mem_ctl.on_clock(
            &nets.mem_addr_mux_out,
            &nets.rs2_data,
            &nets.ctl.mem_read_en,
            &nets.ctl.mem_rmask,
            &nets.ctl.mem_write_en,
            &nets.ctl.mem_wmask,
        );
        proof {
            assert(zero_seq(1) =~= seq![Some(0u8)]);
        }
    }

    /// Advances the simulation by one cycle.
    pub fn run_cycle(&mut self)
        requires
            wf_core(old(self)@),
        ensures
            final(self)@ == cycle_spec(old(self)@),
            wf_core(final(self)@),
    {
        let nets = self.settle();
        self.tick(&nets);
    }

    /// Advances cycles until the program counter changes or a terminating
    /// instruction is latched — one architectural instruction — or the
    /// cycle budget runs out. Returns the number of cycles taken.
    pub fn run_instruction(&mut self, max_cycles: u64) -> (used: u64)
        requires
            wf_core(old(self)@),
        ensures
            used <= max_cycles,
            final(self)@ == run_steps(old(self)@, used as nat),
            wf_core(final(self)@),
            halted(final(self)@) || final(self)@.pc != old(self)@.pc || used == max_cycles,
    {
        let ghost c0 = self@;
        let old_pc = self.pc.data_inner.clone();
        let mut used: u64 = 0;
        loop
            invariant
                used <= max_cycles,
                self@ == run_steps(c0, used as nat),
                wf_core(self@),
                old_pc@ == c0.pc,
            ensures
                used <= max_cycles,
                self@ == run_steps(c0, used as nat),
                wf_core(self@),
                halted(self@) || self@.pc != c0.pc || used == max_cycles,
            decreases max_cycles - used,
        {
            if self.ir.can_end() {
                break ;
            }
            if !self.pc.data_inner.same_as(&old_pc) {
                break ;
            }
            if used == max_cycles {
                break ;
            }
            self.run_cycle();
            proof {
                assert(run_steps(c0, (used + 1) as nat) == cycle_spec(run_steps(c0, used as nat)));
            }
            used = used + 1;
        }
        used
    }

    /// True when the program counter currently holds one of the given
    /// addresses.
    fn at_breakpoint(&self, addrs: &Vec<u32>) -> (r: bool)
        requires
            wf_core(self@),
        ensures
            r == match word_val(self@.pc) {
                Some(p) => addrs@.contains(p),
                None => false,
            },
    {
        proof {
            assert(self@.pc.take(4) =~= self@.pc);
            crate::bytes::lemma_le_val_bound(self@.pc);
            vstd::arithmetic::power2::lemma2_to64();
        }
        match self.pc.data_inner.to_u32() {
            Some(p) => {
                let n = addrs.len();
                for i in 0..n
                    invariant
                        n == addrs@.len(),
                        word_val(self@.pc) == Some(p),
                        forall|j: int| 0 <= j < i ==> addrs@[j] != p,
                {
                    if addrs[i] == p {
                        proof {
                            assert(addrs@.contains(p)) by {
                                assert(addrs@[i as int] == p);
                            }
                        }
                        return true;
                    }
                }
                proof {
                    assert(!addrs@.contains(p));
                }
                false
            },
            None => false,
        }
    }

    /// Advances cycles until the program counter reaches one of the given
    /// addresses, a terminating instruction is latched, or the cycle
    /// budget runs out. Returns the number of cycles taken.
    pub fn run_until_addr(&mut self, addrs: &Vec<u32>, max_cycles: u64) -> (used: u64)
        requires
            wf_core(old(self)@),
        ensures
            used <= max_cycles,
            final(self)@ == run_steps(old(self)@, used as nat),
            wf_core(final(self)@),
            halted(final(self)@) || (match word_val(final(self)@.pc) {
                Some(p) => addrs@.contains(p),
                None => false,
            }) || used == max_cycles,
    {
        let ghost c0 = self@;
        let mut used: u64 = 0;
        loop
            invariant
                used <= max_cycles,
                self@ == run_steps(c0, used as nat),
                wf_core(self@),
            ensures
                used <= max_cycles,
                self@ == run_steps(c0, used as nat),
                wf_core(self@),
                halted(self@) || (match word_val(self@.pc) {
                    Some(p) => addrs@.contains(p),
                    None => false,
                }) || used == max_cycles,
            decreases max_cycles - used,
        {
            if self.ir.can_end() {
                break ;
            }
            if self.at_breakpoint(addrs) {
                break ;
            }
            if used == max_cycles {
                break ;
            }
            self.run_cycle();
            proof {
                assert(run_steps(c0, (used + 1) as nat) == cycle_spec(run_steps(c0, used as nat)));
            }
            used = used + 1;
        }
        used
    }

    /// Advances cycles until a terminating instruction is latched or the
    /// cycle budget runs out. Returns the number of cycles taken; the run
    /// terminated if and only if the machine is halted afterwards.
    pub fn run_end(&mut self, max_cycles: u64) -> (used: u64)
        requires
            wf_core(old(self)@),
        ensures
            used <= max_cycles,
            final(self)@ == run_steps(old(self)@, used as nat),
            wf_core(final(self)@),
            halted(final(self)@) || used == max_cycles,
    {
        let ghost c0 = self@;
        let mut used: u64 = 0;
        loop
            invariant
                used <= max_cycles,
                self@ == run_steps(c0, used as nat),
                wf_core(self@),
            ensures
                used <= max_cycles,
                self@ == run_steps(c0, used as nat),
                wf_core(self@),
                halted(self@) || used == max_cycles,
            decreases max_cycles - used,
        {
            if self.ir.can_end() {
                break ;
            }
            if used == max_cycles {
                break ;
            }
            self.run_cycle();
            proof {
                assert(run_steps(c0, (used + 1) as nat) == cycle_spec(run_steps(c0, used as nat)));
            }
            used = used + 1;
        }
        used
    }

    /// Deposits a raw program image byte by byte, starting at `base`.
    pub fn load_image(&mut self, bytes: &Vec<u8>, base: u32)
        requires
            wf_core(old(self)@),
            base + bytes@.len() <= 0x1_0000_0000,
        ensures
            final(self)@ == (CoreView {
                mem: MemView { mem: deposited(old(self)@.mem.mem, base, bytes@), ..old(self)@.mem },
                ..old(self)@
            }),
            wf_core(final(self)@),
    {
        let n = bytes.len();
        let mut i: usize = 0;
        proof {
            assert(deposited(old(self)@.mem.mem, base, bytes@.take(0)) =~= old(self)@.mem.mem);
        }
        while i < n
            invariant
                i <= n,
                n == bytes@.len(),
                base + n <= 0x1_0000_0000,
                wf_core(self@),
                self@ == (CoreView {
                    mem: MemView {
                        mem: deposited(old(self)@.mem.mem, base, bytes@.take(i as int)),
                        ..old(self)@.mem
                    },
                    ..old(self)@
                }),
            decreases n - i,
        {
            self.mem_ctl.load_byte(base + (i as u32), bytes[i]);
            proof {
                lemma_deposited_step(old(self)@.mem.mem, base, bytes@, i as int);
            }
            i = i + 1;
        }
        proof {
            assert(bytes@.take(n as int) =~= bytes@);
        }
    }

    /// Records a symbol label for an address.
    pub fn add_label(&mut self, addr: u32, name: String)
        requires
            wf_core(old(self)@),
        ensures
            final(self)@ == (CoreView {
                mem: MemView {
                    labels: old(self)@.mem.labels.insert(addr, name@),
                    ..old(self)@.mem
                },
                ..old(self)@
            }),
            wf_core(final(self)@),
    {
        self.mem_ctl.add_label(addr, name);
    }

    /// Pushes one byte into the keyboard device's input buffer.
    pub fn inject_keyboard(&mut self, data: u8)
        requires
            wf_core(old(self)@),
        ensures
            final(self)@ == (CoreView {
                mem: MemView { kb: old(self)@.mem.kb.push(data), ..old(self)@.mem },
                ..old(self)@
            }),
            wf_core(final(self)@),
    {
        self.mem_ctl.keyboard.append_to_buffer(data);
    }

    /// A copy of the externally observable state, taken at a cycle
    /// boundary: the program counter, the latched instruction, the control
    /// state and its name, every register, and the framebuffer bytes.
    pub fn snapshot(&self) -> (s: CoreSnapshot)
        requires
            wf_core(self@),
        ensures
            s.pc@ == self@.pc,
            s.ir@ == self@.ir,
            s.state == self@.state,
            s.state_name@ == crate::types::state_name(self@.state),
            s.registers@.map_values(|b: Bytes| b@) == self@.regs,
            s.framebuffer@ == self@.mem.vga,
    {
        let mut registers: Vec<Bytes> = Vec::new();
        let mut i: usize = 0;
        while i < 32
            invariant
                i <= 32,
                wf_regs(self@.regs),
                self@.regs == self.regfile.registers@,
                registers@.len() == i,
                forall|j: int| 0 <= j < i ==> #[trigger] registers@[j]@ == self@.regs[j],
            decreases 32 - i,
        {
            registers.push(self.regfile.registers.data[i].clone());
            i = i + 1;
        }
        let s = CoreSnapshot {
            pc: self.pc.data_inner.clone(),
            ir: self.ir.data_inner.clone(),
            state: self.control.state,
            state_name: self.control.state.name(),
            registers,
            framebuffer: self.mem_ctl.vga.get_buffer().clone(),
        };
        proof {
            assert(s.registers@.map_values(|b: Bytes| b@) =~= self@.regs);
        }
        s
    }

    /// The framebuffer cell bytes, for a front end to render.
    pub fn framebuffer(&self) -> (r: &Vec<u8>)
        ensures
            r@ == self@.mem.vga,
    {
        self.mem_ctl.vga.get_buffer()
    }
}

/// The memory map after a byte sequence has been deposited at `base`.
pub open spec fn deposited(mem: Map<u32, u8>, base: u32, data: Seq<u8>) -> Map<u32, u8> {
    Map::new(
        |k: u32| mem.contains_key(k) || base <= k < base + data.len(),
        |k: u32|
            if base <= k < base + data.len() {
                data[k - base]
            } else {
                mem[k]
            },
    )
}

/// Depositing one more byte extends the deposited map by one entry.
proof fn lemma_deposited_step(mem: Map<u32, u8>, base: u32, data: Seq<u8>, i: int)
    requires
        0 <= i < data.len(),
        base + data.len() <= 0x1_0000_0000,
    ensures
        deposited(mem, base, data.take(i)).insert((base + i) as u32, data[i]) == deposited(
            mem,
            base,
            data.take(i + 1),
        ),
{
    assert(deposited(mem, base, data.take(i)).insert((base + i) as u32, data[i]) =~= deposited(
        mem,
        base,
        data.take(i + 1),
    ));
}

/// A cycle preserves well-formedness of the architectural model.
#[verifier::rlimit(100)]
#[verifier::spinoff_prover]
pub proof fn lemma_cycle_preserves_wf(c: CoreView)
    requires
        wf_core(c),
    ensures
        wf_core(cycle_spec(c)),
{
    lemma_ir_reg_idx(c.ir);
}

/// In each of the execute states of the non-branching, non-jumping
/// instructions — and in `Load` and `Store` once the memory has responded —
/// the cycle commits a known program counter advanced by exactly four,
/// modulo the address space.
pub proof fn lemma_pc_advances_by_four(c: CoreView)
    requires
        wf_core(c),
        all_known(c.pc),
        c.state == States::Imm || c.state == States::Reg || c.state == States::Lui || c.state
            == States::Auipc || ((c.state == States::Load || c.state == States::Store)
            && asserted(c.mem.resp)),
    ensures
        all_known(cycle_spec(c).pc),
        le_val(cycle_spec(c).pc) == (le_val(c.pc) + 4) % pow2(32),
{
    let n = nets_spec(c);
    assert(n.ctl.pc_mux_sel == seq![Some(crate::types::PC_SEL_PLUS4)]);
    assert(asserted(n.ctl.load_pc)) by {
        assert(seq![Some(1u8)].skip(1) =~= Seq::<Option<u8>>::empty());
        assert(le_val(Seq::<Option<u8>>::empty()) == 0);
    }
    assert(cycle_spec(c).pc == add_bytes(c.pc, word_of(4)));
    crate::bytes::lemma_from_nat_val(4, 4);
    assert(le_val(word_of(4)) == 4) by {
        vstd::arithmetic::power2::lemma2_to64();
        vstd::arithmetic::div_mod::lemma_small_mod(4, pow2(32));
    }
    crate::bytes::lemma_add_bytes_value(c.pc, word_of(4));
}

/// After one whole register or immediate instruction — a responded fetch,
/// its decode, and its single execute cycle — the program counter has
/// advanced by exactly four and the machine is back at `Fetch`.
pub proof fn lemma_instruction_advances_pc(c: CoreView)
    requires
        wf_core(c),
        all_known(c.pc),
        c.state == States::Fetch,
        asserted(c.mem.resp),
        ({
            let op = ir_field(c.mem.rdata, 0, 128)[0];
            op == Some(crate::types::OPCODE_IMM) || op == Some(crate::types::OPCODE_REG) || op
                == Some(crate::types::OPCODE_LUI) || op == Some(crate::types::OPCODE_AUIPC)
        }),
    ensures
        ({
            let done = cycle_spec(cycle_spec(cycle_spec(c)));
            &&& done.state == States::Fetch
            &&& all_known(done.pc)
            &&& le_val(done.pc) == (le_val(c.pc) + 4) % pow2(32)
        }),
{
    let c1 = cycle_spec(c);
    lemma_cycle_preserves_wf(c);
    lemma_pc_holds(c);
    assert(asserted(seq![Some(1u8)])) by {
        assert(seq![Some(1u8)].skip(1) =~= Seq::<Option<u8>>::empty());
        assert(le_val(Seq::<Option<u8>>::empty()) == 0);
    }
    assert(c1.state == States::Decode);
    assert(c1.ir == c.mem.rdata);
    let c2 = cycle_spec(c1);
    lemma_cycle_preserves_wf(c1);
    lemma_pc_holds(c1);
    assert(c2.state == States::Imm || c2.state == States::Reg || c2.state == States::Lui
        || c2.state == States::Auipc);
    lemma_cycle_preserves_wf(c2);
    lemma_pc_advances_by_four(c2);
    assert(cycle_spec(c2).state == States::Fetch);
}

/// In the fetch and decode states, and in a load or store still waiting
/// for the memory, the cycle leaves the program counter unchanged.
pub proof fn lemma_pc_holds(c: CoreView)
    requires
        wf_core(c),
        c.state == States::Fetch || c.state == States::Decode || ((c.state == States::Load
            || c.state == States::Store) && !asserted(c.mem.resp)),
    ensures
        cycle_spec(c).pc == c.pc,
{
    let n = nets_spec(c);
    assert(n.ctl.load_pc == seq![Some(0u8)]);
    assert(!asserted(n.ctl.load_pc)) by {
        assert(seq![Some(0u8)].skip(1) =~= Seq::<Option<u8>>::empty());
        assert(le_val(Seq::<Option<u8>>::empty()) == 0);
    }
}

} // verus!
