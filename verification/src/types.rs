//! Instruction-set constants and the control state machine's states.
//!
//! The opcode, funct3 and selector values below are the RV32I encodings and
//! the datapath's multiplexer codes; the control unit puts them on the
//! selector nets and the muxes, ALU and comparator key their behaviour on
//! them.

use vstd::prelude::*;

verus! {

// RV32I opcodes (bits 6..0 of the instruction).
pub const OPCODE_LUI: u8 = 0b0110111;

pub const OPCODE_AUIPC: u8 = 0b0010111;

pub const OPCODE_JAL: u8 = 0b1101111;

pub const OPCODE_JALR: u8 = 0b1100111;

pub const OPCODE_BR: u8 = 0b1100011;

pub const OPCODE_LOAD: u8 = 0b0000011;

pub const OPCODE_STORE: u8 = 0b0100011;

pub const OPCODE_IMM: u8 = 0b0010011;

pub const OPCODE_REG: u8 = 0b0110011;

// funct3 codes of the branch instructions (also the comparator's operation
// codes).
pub const FUNCT3_BEQ: u8 = 0b000;

pub const FUNCT3_BNE: u8 = 0b001;

pub const FUNCT3_BLT: u8 = 0b100;

pub const FUNCT3_BGE: u8 = 0b101;

pub const FUNCT3_BLTU: u8 = 0b110;

pub const FUNCT3_BGEU: u8 = 0b111;

// funct3 codes of the loads.
pub const FUNCT3_LB: u8 = 0b000;

pub const FUNCT3_LH: u8 = 0b001;

pub const FUNCT3_LW: u8 = 0b010;

pub const FUNCT3_LBU: u8 = 0b100;

pub const FUNCT3_LHU: u8 = 0b101;

// funct3 codes of the stores.
pub const FUNCT3_SB: u8 = 0b000;

pub const FUNCT3_SH: u8 = 0b001;

pub const FUNCT3_SW: u8 = 0b010;

// funct3 codes of the register/immediate arithmetic instructions that need
// special handling in the control unit.
pub const FUNCT3_ADD: u8 = 0b000;

pub const FUNCT3_SLT: u8 = 0b010;

pub const FUNCT3_SLTU: u8 = 0b011;

pub const FUNCT3_SR: u8 = 0b101;

// ALU operation codes.
pub const ALU_ADD: u8 = 0b000;

pub const ALU_SLL: u8 = 0b001;

pub const ALU_SRA: u8 = 0b010;

pub const ALU_SUB: u8 = 0b011;

pub const ALU_XOR: u8 = 0b100;

pub const ALU_SRL: u8 = 0b101;

pub const ALU_OR: u8 = 0b110;

pub const ALU_AND: u8 = 0b111;

// Program-counter multiplexer selectors.
pub const PC_SEL_PLUS4: u8 = 0x00;

pub const PC_SEL_ALU: u8 = 0x01;

pub const PC_SEL_ALU_MOD2: u8 = 0x02;

// Memory-address multiplexer selectors.
pub const MEM_ADDR_SEL_PC: u8 = 0x00;

pub const MEM_ADDR_SEL_ALU: u8 = 0x01;

// Comparator operand multiplexer selectors.
pub const CMP_SEL_RS2: u8 = 0x00;

pub const CMP_SEL_I_IMM: u8 = 0x01;

// First ALU operand multiplexer selectors.
pub const ALU1_SEL_RS1: u8 = 0x00;

pub const ALU1_SEL_PC: u8 = 0x01;

// Second ALU operand multiplexer selectors.
pub const ALU2_SEL_I_IMM: u8 = 0x00;

pub const ALU2_SEL_U_IMM: u8 = 0x01;

pub const ALU2_SEL_B_IMM: u8 = 0x02;

pub const ALU2_SEL_S_IMM: u8 = 0x03;

pub const ALU2_SEL_J_IMM: u8 = 0x04;

pub const ALU2_SEL_RS2: u8 = 0x05;

// Register-file write multiplexer selectors.
pub const RF_SEL_ALU: u8 = 0x00;

pub const RF_SEL_BR_EN: u8 = 0x01;

pub const RF_SEL_U_IMM: u8 = 0x02;

pub const RF_SEL_LW: u8 = 0x03;

pub const RF_SEL_PC_PLUS4: u8 = 0x04;

pub const RF_SEL_LB: u8 = 0x05;

pub const RF_SEL_LBU: u8 = 0x06;

pub const RF_SEL_LH: u8 = 0x07;

pub const RF_SEL_LHU: u8 = 0x08;

/// The states of the control finite state machine. One instruction passes
/// through `Fetch` (stalling until the memory responds), `Decode`, and one
/// execute state chosen by its opcode; loads and stores stall in their
/// execute state until the memory responds.
#[derive(Clone, Copy, Debug, PartialEq, Eq, Structural)]
pub enum States {
    Fetch,
    Decode,
    Imm,
    Reg,
    Lui,
    Br,
    Auipc,
    Load,
    Store,
    Jal,
    Jalr,
}

/// The display name of a control state.
pub open spec fn state_name(s: States) -> Seq<char> {
    match s {
        States::Fetch => seq!['F', 'e', 't', 'c', 'h'],
        States::Decode => seq!['D', 'e', 'c', 'o', 'd', 'e'],
        States::Imm => seq!['I', 'm', 'm'],
        States::Reg => seq!['R', 'e', 'g'],
        States::Lui => seq!['L', 'u', 'i'],
        States::Br => seq!['B', 'r'],
        States::Auipc => seq!['A', 'u', 'i', 'p', 'c'],
        States::Load => seq!['L', 'o', 'a', 'd'],
        States::Store => seq!['S', 't', 'o', 'r', 'e'],
        States::Jal => seq!['J', 'a', 'l'],
        States::Jalr => seq!['J', 'a', 'l', 'r'],
    }
}

impl States {
    /// The state's name, as the front ends show it.
    pub fn name(&self) -> (r: String)
        ensures
            r@ == state_name(*self),
    {
        proof {
            reveal_strlit("Fetch");
            reveal_strlit("Decode");
            reveal_strlit("Imm");
            reveal_strlit("Reg");
            reveal_strlit("Lui");
            reveal_strlit("Br");
            reveal_strlit("Auipc");
            reveal_strlit("Load");
            reveal_strlit("Store");
            reveal_strlit("Jal");
            reveal_strlit("Jalr");
        }
        let mut out = String::new();
        match self {
            States::Fetch => out.append("Fetch"),
            States::Decode => out.append("Decode"),
            States::Imm => out.append("Imm"),
            States::Reg => out.append("Reg"),
            States::Lui => out.append("Lui"),
            States::Br => out.append("Br"),
            States::Auipc => out.append("Auipc"),
            States::Load => out.append("Load"),
            States::Store => out.append("Store"),
            States::Jal => out.append("Jal"),
            States::Jalr => out.append("Jalr"),
        }
        out
    }
}

/// A word net carries four tri-state bytes.
pub open spec fn wf_word(s: Seq<Option<u8>>) -> bool {
    s.len() == 4
}

/// A control net carries one tri-state byte.
pub open spec fn wf_byte(s: Seq<Option<u8>>) -> bool {
    s.len() == 1
}

} // verus!
