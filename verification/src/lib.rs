//! Cycle-accurate simulator for a 32-bit RISC-V (RV32I) single-core CPU.
//!
//! Every net in the simulated datapath carries a tri-state byte container
//! ([`bytes::Bytes`]): each byte is either a known 8-bit value or unknown.
//! A control finite state machine sequences fetch, decode, execute, memory
//! and writeback phases by driving the datapath's multiplexers, register
//! writes and memory masks. The datapath's combinational portion is acyclic,
//! so one settling pass in dependency order per cycle reaches the unique
//! fixed point of the combinational graph; clocked components then commit
//! their next state on the clock edge.

pub mod alu;
pub mod bytes;
pub mod cmp;
pub mod control;
pub mod cpu;
pub mod helper;
pub mod ir;
pub mod mem_addr_mux;
pub mod mem_ctl;
pub mod pc;
pub mod regfile;
pub mod types;
