//! End-to-end instruction scenarios and component behaviour of the
//! simulated machine.

use rv32sim::bytes::Bytes;
use rv32sim::cpu::Core;
use rv32sim::helper::sign_extend;
use rv32sim::mem_ctl::{KeyboardMmioCtl, MemCtl, VgaMmioCtl, KB_DATA_ADDR, KB_STATUS_ADDR};
use rv32sim::regfile::RegFile;
use rv32sim::types::States;

/// Deposits one little-endian instruction word.
fn load_word(core: &mut Core, addr: u32, w: u32) {
    let bytes: Vec<u8> = vec![w as u8, (w >> 8) as u8, (w >> 16) as u8, (w >> 24) as u8];
    core.load_image(&bytes, addr);
}

/// The value of register `i`, which must be fully known.
fn reg(core: &Core, i: usize) -> u32 {
    core.regfile.registers.data[i].to_u32().unwrap()
}

/// The current program counter, which must be fully known.
fn pc(core: &Core) -> u32 {
    core.pc.data_inner.to_u32().unwrap()
}

#[test]
fn addi_writes_register_and_advances_pc() {
    let mut core = Core::new();
    // ADDI x1, x0, 5
    load_word(&mut core, 0x4000_0000, 0x0050_0093);
    core.run_instruction(100);
    assert_eq!(reg(&core, 1), 5);
    assert_eq!(pc(&core), 0x4000_0004);
    // The control machine is back at Fetch after the instruction.
    assert_eq!(core.control.state, States::Fetch);
}

#[test]
fn add_sums_two_registers() {
    let mut core = Core::new();
    // ADDI x1, x0, 7 ; ADDI x2, x0, 11 ; ADD x3, x1, x2
    load_word(&mut core, 0x4000_0000, 0x0070_0093);
    load_word(&mut core, 0x4000_0004, 0x00B0_0113);
    load_word(&mut core, 0x4000_0008, 0x0020_81B3);
    core.run_instruction(100);
    core.run_instruction(100);
    let before = pc(&core);
    core.run_instruction(100);
    assert_eq!(reg(&core, 3), 18);
    assert_eq!(pc(&core), before + 4);
}

#[test]
fn sw_writes_memory_word() {
    let mut core = Core::new();
    core.regfile.registers.data[1] = Bytes::from_u32(0x4000_1000);
    core.regfile.registers.data[2] = Bytes::from_u32(0xDEAD_BEEF);
    // SW x2, 0(x1)
    load_word(&mut core, 0x4000_0000, 0x0020_A023);
    core.run_instruction(100);
    assert_eq!(core.mem_ctl.backend_mem.get(&0x4000_1000), Some(&0xEF));
    assert_eq!(core.mem_ctl.backend_mem.get(&0x4000_1001), Some(&0xBE));
    assert_eq!(core.mem_ctl.backend_mem.get(&0x4000_1002), Some(&0xAD));
    assert_eq!(core.mem_ctl.backend_mem.get(&0x4000_1003), Some(&0xDE));
    assert_eq!(pc(&core), 0x4000_0004);
}

#[test]
fn sw_then_lw_round_trip() {
    let mut core = Core::new();
    core.regfile.registers.data[1] = Bytes::from_u32(0x4000_1000);
    core.regfile.registers.data[2] = Bytes::from_u32(0xCAFE_F00D);
    // SW x2, 0(x1) ; LW x4, 0(x1)
    load_word(&mut core, 0x4000_0000, 0x0020_A023);
    load_word(&mut core, 0x4000_0004, 0x0000_A203);
    core.run_instruction(100);
    core.run_instruction(100);
    assert_eq!(reg(&core, 4), 0xCAFE_F00D);
}

#[test]
fn beq_taken_jumps_by_offset() {
    let mut core = Core::new();
    core.regfile.registers.data[1] = Bytes::from_u32(1);
    core.regfile.registers.data[2] = Bytes::from_u32(1);
    // BEQ x1, x2, +8
    load_word(&mut core, 0x4000_0000, 0x0020_8463);
    core.run_instruction(100);
    assert_eq!(pc(&core), 0x4000_0008);
}

#[test]
fn beq_not_taken_advances_by_four() {
    let mut core = Core::new();
    core.regfile.registers.data[1] = Bytes::from_u32(1);
    core.regfile.registers.data[2] = Bytes::from_u32(2);
    load_word(&mut core, 0x4000_0000, 0x0020_8463);
    core.run_instruction(100);
    assert_eq!(pc(&core), 0x4000_0004);
}

#[test]
fn lb_sign_extends() {
    let mut core = Core::new();
    core.load_image(&vec![0xFFu8], 0x4000_2000);
    core.regfile.registers.data[6] = Bytes::from_u32(0x4000_2000);
    // LB x5, 0(x6)
    load_word(&mut core, 0x4000_0000, 0x0003_0283);
    core.run_instruction(100);
    assert_eq!(reg(&core, 5), 0xFFFF_FFFF);
}

#[test]
fn lbu_zero_extends() {
    let mut core = Core::new();
    core.load_image(&vec![0xFFu8], 0x4000_2000);
    core.regfile.registers.data[6] = Bytes::from_u32(0x4000_2000);
    // LBU x5, 0(x6)
    load_word(&mut core, 0x4000_0000, 0x0003_4283);
    core.run_instruction(100);
    assert_eq!(reg(&core, 5), 0x0000_00FF);
}

#[test]
fn jalr_clears_low_bit_and_links() {
    let mut core = Core::new();
    core.regfile.registers.data[1] = Bytes::from_u32(0x4000_0003);
    // JALR x2, 0(x1)
    load_word(&mut core, 0x4000_0000, 0x0000_8167);
    core.run_instruction(100);
    assert_eq!(pc(&core), 0x4000_0002);
    assert_eq!(reg(&core, 2), 0x4000_0004);
}

#[test]
fn self_loop_terminates_run() {
    let mut core = Core::new();
    // BEQ x0, x0, 0: an unconditional self loop, treated as a halt.
    load_word(&mut core, 0x4000_0000, 0x0000_0063);
    let used = core.run_end(1000);
    // The run returns as soon as the fetch completes and the word is
    // latched: one cycle to issue the read, one to capture it.
    assert_eq!(used, 2);
    assert!(core.ir.can_end());
    assert_eq!(pc(&core), 0x4000_0000);
}

#[test]
fn magic_nop_terminates_run() {
    let mut core = Core::new();
    load_word(&mut core, 0x4000_0000, 0xF000_2013);
    let used = core.run_end(1000);
    assert!(used < 1000);
    assert!(core.ir.can_end());
}

#[test]
fn run_until_addr_stops_at_breakpoint() {
    let mut core = Core::new();
    load_word(&mut core, 0x4000_0000, 0x0050_0093);
    load_word(&mut core, 0x4000_0004, 0x0050_0093);
    load_word(&mut core, 0x4000_0008, 0x0000_0063);
    core.run_until_addr(&vec![0x4000_0004u32], 1000);
    assert_eq!(pc(&core), 0x4000_0004);
}

#[test]
fn writes_to_x0_are_discarded() {
    let mut core = Core::new();
    // ADDI x0, x0, 5
    load_word(&mut core, 0x4000_0000, 0x0050_0013);
    core.run_instruction(100);
    assert_eq!(reg(&core, 0), 0);
    assert_eq!(pc(&core), 0x4000_0004);
}

#[test]
fn regfile_write_then_read() {
    let mut rf = RegFile::new();
    rf.on_clock(
        &Bytes::of_byte(1),
        &Bytes::of_byte(5),
        &Bytes::from_u32(42),
    );
    let (rs1, rs2) = rf.on_comb(&Bytes::of_byte(5), &Bytes::of_byte(0));
    assert_eq!(rs1, Bytes::from_u32(42));
    assert_eq!(rs2, Bytes::from_u32(0));
    // Register 0 reads zero whatever was written to it.
    rf.on_clock(
        &Bytes::of_byte(1),
        &Bytes::of_byte(0),
        &Bytes::from_u32(99),
    );
    let (z, _) = rf.on_comb(&Bytes::of_byte(0), &Bytes::of_byte(5));
    assert_eq!(z, Bytes::from_u32(0));
}

#[test]
fn mem_ctl_write_then_read_masked() {
    let mut mc = MemCtl::new();
    let addr = Bytes::from_u32(0x4000_1000);
    let data = Bytes::from_u32(0x1122_3344);
    let zero = Bytes::of_byte(0);
    let one = Bytes::of_byte(1);
    // A write request with the half-word mask.
    mc.on_clock(&addr, &data, &zero, &zero, &one, &Bytes::of_byte(0x03));
    assert_eq!(mc.resp, Bytes::of_byte(1));
    // An idle edge lets the controller accept the next request.
    mc.on_clock(&addr, &data, &zero, &zero, &zero, &zero);
    // Read back with the same mask: the masked lanes hold the written
    // bytes, the others stay unknown.
    mc.on_clock(&addr, &data, &one, &Bytes::of_byte(0x03), &zero, &zero);
    assert_eq!(mc.resp, Bytes::of_byte(1));
    assert_eq!(mc.rdata.get(0), Some(0x44));
    assert_eq!(mc.rdata.get(1), Some(0x33));
    assert_eq!(mc.rdata.get(2), None);
    assert_eq!(mc.rdata.get(3), None);
}

#[test]
fn keyboard_ports() {
    let mut kb = KeyboardMmioCtl::new();
    assert_eq!(kb.read_at(KB_STATUS_ADDR), Some(0));
    assert_eq!(kb.read_at(KB_DATA_ADDR), None);
    kb.append_to_buffer(0x41);
    kb.append_to_buffer(0x42);
    assert_eq!(kb.read_at(KB_STATUS_ADDR), Some(1));
    assert_eq!(kb.read_at(KB_DATA_ADDR), Some(0x41));
    assert_eq!(kb.read_at(KB_DATA_ADDR), Some(0x42));
    assert_eq!(kb.read_at(KB_STATUS_ADDR), Some(0));
}

#[test]
fn keyboard_read_through_load() {
    let mut core = Core::new();
    core.inject_keyboard(0x41);
    core.regfile.registers.data[1] = Bytes::from_u32(0x000A_0000);
    // LBU x5, 1(x1): pops the keyboard data port.
    load_word(&mut core, 0x4000_0000, 0x0010_C283);
    core.run_instruction(100);
    assert_eq!(reg(&core, 5), 0x41);
}

#[test]
fn vga_reset_pattern_and_store() {
    let core0 = Core::new();
    let fb = core0.framebuffer();
    assert_eq!(fb.len(), 25 * 80 * 2);
    assert_eq!(fb[0], 0);
    assert_eq!(fb[1], 0x0F);
    assert_eq!(fb[3999], 0x0F);

    let mut core = Core::new();
    core.regfile.registers.data[1] = Bytes::from_u32(0x000B_8000);
    core.regfile.registers.data[2] = Bytes::from_u32(0x31);
    // SB x2, 0(x1): writes a character cell.
    load_word(&mut core, 0x4000_0000, 0x0020_8023);
    core.run_instruction(100);
    assert_eq!(core.framebuffer()[0], 0x31);
    assert_eq!(core.framebuffer()[1], 0x0F);
}

#[test]
fn vga_out_of_range_reads_unknown() {
    let vga = VgaMmioCtl::new();
    assert_eq!(vga.read_at(0x000B_7FFF), None);
    assert_eq!(vga.read_at(0x000B_8000 + 4000), None);
    assert_eq!(vga.read_at(0x000B_8000), Some(0));
}

#[test]
fn sign_extend_exact_values() {
    assert_eq!(sign_extend(0xFFF, 11).to_u32(), Some(0xFFFF_FFFF));
    assert_eq!(sign_extend(0x7FF, 11).to_u32(), Some(0x0000_07FF));
    assert_eq!(sign_extend(0x800, 11).to_u32(), Some(0xFFFF_F800));
    assert_eq!(sign_extend(0x8000, 15).to_u32(), Some(0xFFFF_8000));
    assert_eq!(sign_extend(0, 11).to_u32(), Some(0));
}

#[test]
fn reset_restores_power_on_state() {
    let mut core = Core::new();
    load_word(&mut core, 0x4000_0000, 0x0050_0093);
    core.run_instruction(100);
    assert_eq!(pc(&core), 0x4000_0004);
    core.reset();
    assert_eq!(pc(&core), 0x4000_0000);
    assert_eq!(core.control.state, States::Fetch);
    assert_eq!(reg(&core, 1), 0);
    assert!(core.mem_ctl.backend_mem.is_empty());
    assert_eq!(core.framebuffer()[1], 0x0F);
}

#[test]
fn unknown_opcode_returns_to_fetch() {
    let mut core = Core::new();
    // An all-zero word is no RV32I instruction; the machine decodes it,
    // asserts nothing, and returns to Fetch with the program counter
    // unchanged.
    load_word(&mut core, 0x4000_0000, 0x0000_0000);
    core.run_cycle();
    core.run_cycle();
    core.run_cycle();
    assert_eq!(core.control.state, States::Fetch);
    assert_eq!(pc(&core), 0x4000_0000);
}

#[test]
fn srai_shifts_arithmetically() {
    let mut core = Core::new();
    core.regfile.registers.data[1] = Bytes::from_u32(0x8000_0000);
    // SRAI x2, x1, 4 (funct7 bit 5 set selects the arithmetic shift).
    load_word(&mut core, 0x4000_0000, 0x4040_D113);
    core.run_instruction(100);
    assert_eq!(reg(&core, 2), 0xF800_0000);
}

#[test]
fn srli_shifts_logically() {
    let mut core = Core::new();
    core.regfile.registers.data[1] = Bytes::from_u32(0x8000_0000);
    // SRLI x2, x1, 4
    load_word(&mut core, 0x4000_0000, 0x0040_D113);
    core.run_instruction(100);
    assert_eq!(reg(&core, 2), 0x0800_0000);
}

#[test]
fn slt_and_sltu_disagree_on_sign() {
    let mut core = Core::new();
    core.regfile.registers.data[1] = Bytes::from_u32(0xFFFF_FFFF);
    core.regfile.registers.data[2] = Bytes::from_u32(1);
    // SLT x3, x1, x2 ; SLTU x4, x1, x2
    load_word(&mut core, 0x4000_0000, 0x0020_A1B3);
    load_word(&mut core, 0x4000_0004, 0x0020_B233);
    core.run_instruction(100);
    core.run_instruction(100);
    assert_eq!(reg(&core, 3), 1);
    assert_eq!(reg(&core, 4), 0);
}

#[test]
fn lui_and_auipc() {
    let mut core = Core::new();
    // LUI x1, 0x12345 ; AUIPC x2, 0x1
    load_word(&mut core, 0x4000_0000, 0x1234_50B7);
    load_word(&mut core, 0x4000_0004, 0x0000_1117);
    core.run_instruction(100);
    core.run_instruction(100);
    assert_eq!(reg(&core, 1), 0x1234_5000);
    assert_eq!(reg(&core, 2), 0x4000_1004);
}

#[test]
fn jal_links_and_jumps() {
    let mut core = Core::new();
    // JAL x1, +8
    load_word(&mut core, 0x4000_0000, 0x0080_00EF);
    core.run_instruction(100);
    assert_eq!(pc(&core), 0x4000_0008);
    assert_eq!(reg(&core, 1), 0x4000_0004);
}

#[test]
fn labels_are_recorded() {
    let mut core = Core::new();
    core.add_label(0x4000_0000, String::from("start"));
    assert_eq!(
        core.mem_ctl.label.get(&0x4000_0000).map(|s| s.as_str()),
        Some("start")
    );
}

#[test]
fn snapshot_reflects_state() {
    let mut core = Core::new();
    load_word(&mut core, 0x4000_0000, 0x0050_0093);
    core.run_instruction(100);
    let s = core.snapshot();
    assert_eq!(s.state_name, "Fetch");
    assert_eq!(s.pc.to_u32(), Some(0x4000_0004));
    assert_eq!(s.ir.to_u32(), Some(0x0050_0093));
    assert_eq!(s.registers[1].to_u32(), Some(5));
    assert_eq!(s.registers[0].to_u32(), Some(0));
    assert_eq!(s.framebuffer[1], 0x0F);
}
