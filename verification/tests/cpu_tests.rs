use chip8::cpu::{Cpu, StuckPolicy};
use chip8::gpu::{Gpu, WIDTH};
use chip8::memory::Memory;
use chip8::Fault;

fn boot(words: &[u16]) -> Cpu {
    let mut rom: Vec<u8> = Vec::new();
    for &w in words {
        rom.push((w >> 8) as u8);
        rom.push((w & 0xff) as u8);
    }
    let mut cpu = Cpu::new(Memory::new(), Gpu::new());
    assert_eq!(cpu.load_rom(rom.as_slice()), Ok(()));
    cpu
}

fn steps(cpu: &mut Cpu, n: usize) {
    for _ in 0..n {
        assert_eq!(cpu.execute(vec![]), Ok(()));
    }
}

#[test]
fn initial_state_dump() {
    let cpu = Cpu::new(Memory::new(), Gpu::new());
    let lines = cpu.dump_to_vec_str();
    assert_eq!(lines.len(), 8);
    assert_eq!(lines[0], "---- CPU STATE ----");
    assert_eq!(lines[1], "V0: 00   V1: 00  V2: 00  V3: 00");
    assert_eq!(lines[5], "DT: 00   ST: 00");
    assert_eq!(lines[6], "I : 0000");
    assert_eq!(lines[7], "PC: 0200");
}

#[test]
fn add_with_carry_sets_flag() {
    // VA = 0xFF, VB = 0x01: the sum overflows, so VA wraps to 0x00 and the
    // flag register reports the carry.
    let mut cpu = boot(&[0x6aff, 0x6b01, 0x8ab4]);
    steps(&mut cpu, 3);
    let lines = cpu.dump_to_vec_str();
    assert_eq!(lines[3], "V8: 00   V9: 00  VA: 00  VB: 01");
    assert_eq!(lines[4], "VC: 00   VD: 00  VE: 00  VF: 01");
}

#[test]
fn sub_with_borrow_clears_flag() {
    // V1 = 0x05, V2 = 0x0A: the minuend is smaller, so the flag register
    // reports the borrow as 0 and V1 wraps to 0xFB.
    let mut cpu = boot(&[0x6f01, 0x6105, 0x620a, 0x8125]);
    steps(&mut cpu, 4);
    let lines = cpu.dump_to_vec_str();
    assert_eq!(lines[1], "V0: 00   V1: FB  V2: 0A  V3: 00");
    assert_eq!(lines[4], "VC: 00   VD: 00  VE: 00  VF: 00");
}

#[test]
fn subn_reverse_subtract() {
    // V1 = 0x05, V2 = 0x0A: reverse-subtract stores V2 - V1 with no borrow.
    let mut cpu = boot(&[0x6105, 0x620a, 0x8127]);
    steps(&mut cpu, 3);
    let lines = cpu.dump_to_vec_str();
    assert_eq!(lines[1], "V0: 00   V1: 05  V2: 0A  V3: 00");
    assert_eq!(lines[4], "VC: 00   VD: 00  VE: 00  VF: 01");
}

#[test]
fn call_then_return_restores_pc_and_stack() {
    let mut cpu = boot(&[0x2208, 0x0000, 0x0000, 0x0000, 0x00ee]);
    steps(&mut cpu, 1);
    let lines = cpu.dump_to_vec_str();
    assert_eq!(lines.len(), 9);
    assert_eq!(lines[7], "PC: 0208");
    assert_eq!(lines[8], "SP: 0202");
    steps(&mut cpu, 1);
    let lines = cpu.dump_to_vec_str();
    assert_eq!(lines.len(), 8);
    assert_eq!(lines[7], "PC: 0202");
}

#[test]
fn wait_for_key_stays_then_resumes() {
    let mut cpu = boot(&[0xf00a]);
    for _ in 0..3 {
        assert_eq!(cpu.execute(vec![]), Ok(()));
        assert_eq!(cpu.dump_to_vec_str()[7], "PC: 0200");
    }
    assert_eq!(cpu.execute(vec![7, 2]), Ok(()));
    let lines = cpu.dump_to_vec_str();
    assert_eq!(lines[1], "V0: 07   V1: 00  V2: 00  V3: 00");
    assert_eq!(lines[7], "PC: 0202");
}

#[test]
fn timer_tick_floors_at_zero() {
    let mut cpu = Cpu::new(Memory::new(), Gpu::new());
    cpu.timer_tick();
    assert_eq!(cpu.dump_to_vec_str()[5], "DT: 00   ST: 00");

    let mut cpu = boot(&[0x6003, 0xf015, 0xf018]);
    steps(&mut cpu, 3);
    assert_eq!(cpu.dump_to_vec_str()[5], "DT: 03   ST: 03");
    cpu.timer_tick();
    assert_eq!(cpu.dump_to_vec_str()[5], "DT: 02   ST: 02");
    cpu.timer_tick();
    cpu.timer_tick();
    assert_eq!(cpu.dump_to_vec_str()[5], "DT: 00   ST: 00");
    cpu.timer_tick();
    assert_eq!(cpu.dump_to_vec_str()[5], "DT: 00   ST: 00");
}

#[test]
fn unrecognized_opcode_is_fatal() {
    let mut cpu = boot(&[0xf00d]);
    assert_eq!(cpu.execute(vec![]), Err(Fault::UnrecognizedOpcode));
}

#[test]
fn return_with_empty_stack_is_fatal() {
    let mut cpu = boot(&[0x00ee]);
    assert_eq!(cpu.execute(vec![]), Err(Fault::StackUnderflow));
}

#[test]
fn stuck_pc_policy() {
    // a jump to its own address repeats the counter: fatal by default
    let mut cpu = boot(&[0x1200]);
    assert_eq!(cpu.execute(vec![]), Ok(()));
    assert_eq!(cpu.execute(vec![]), Err(Fault::StuckProgramCounter));

    // under the silent policy the engine carries on
    let mut cpu = boot(&[0x1200]);
    cpu.set_stuck_policy(StuckPolicy::Ignore);
    assert_eq!(cpu.execute(vec![]), Ok(()));
    assert_eq!(cpu.execute(vec![]), Ok(()));
    assert_eq!(cpu.dump_to_vec_str()[7], "PC: 0200");
}

#[test]
fn fetch_past_memory_is_fatal() {
    let mut cpu = boot(&[0x1fff]);
    assert_eq!(cpu.execute(vec![]), Ok(()));
    assert_eq!(cpu.execute(vec![]), Err(Fault::MemoryBoundsFault));
}

#[test]
fn sprite_read_past_memory_is_fatal() {
    // I at the top of memory, a 5-row sprite read runs past the end
    let mut cpu = boot(&[0xafff, 0xd005]);
    assert_eq!(cpu.execute(vec![]), Ok(()));
    assert_eq!(cpu.execute(vec![]), Err(Fault::MemoryBoundsFault));
}

#[test]
fn draw_origin_out_of_range_is_fatal() {
    let mut cpu = boot(&[0x6040, 0xd011]);
    assert_eq!(cpu.execute(vec![]), Ok(()));
    assert_eq!(cpu.execute(vec![]), Err(Fault::DisplayBoundsFault));
}

#[test]
fn block_store_past_memory_is_fatal() {
    let mut cpu = boot(&[0xafff, 0xf155]);
    assert_eq!(cpu.execute(vec![]), Ok(()));
    assert_eq!(cpu.execute(vec![]), Err(Fault::MemoryBoundsFault));
}

#[test]
fn draw_glyph_and_collide() {
    // draw the glyph for 0 at the top-left corner, then draw it again:
    // the first draw sets its pixels, the second reports the collision and
    // restores them
    let mut cpu = boot(&[0xa000, 0xd005, 0xd005]);
    steps(&mut cpu, 2);
    let fb = cpu.get_fb();
    assert!(fb[0] && fb[1] && fb[2] && fb[3]);
    assert!(!fb[4] && !fb[5] && !fb[6] && !fb[7]);
    assert!(fb[WIDTH] && !fb[WIDTH + 1] && !fb[WIDTH + 2] && fb[WIDTH + 3]);
    assert_eq!(cpu.dump_to_vec_str()[4], "VC: 00   VD: 00  VE: 00  VF: 00");
    steps(&mut cpu, 1);
    assert_eq!(cpu.dump_to_vec_str()[4], "VC: 00   VD: 00  VE: 00  VF: 01");
    assert!(cpu.get_fb().iter().all(|&p| !p));
}

#[test]
fn clear_display_instruction() {
    let mut cpu = boot(&[0xa000, 0xd005, 0x00e0]);
    steps(&mut cpu, 2);
    assert!(cpu.get_fb().iter().any(|&p| p));
    steps(&mut cpu, 1);
    assert!(cpu.get_fb().iter().all(|&p| !p));
}

#[test]
fn bcd_decomposition() {
    // V0 = 234: its decimal digits land at I, I+1, I+2 and are read back
    let mut cpu = boot(&[0x60ea, 0xa300, 0xf033, 0xf265]);
    steps(&mut cpu, 4);
    assert_eq!(
        cpu.dump_to_vec_str()[1],
        "V0: 02   V1: 03  V2: 04  V3: 00"
    );
}

#[test]
fn block_store_and_load() {
    let mut cpu = boot(&[
        0x6011, 0x6122, 0x6233, 0xa300, 0xf255, 0x6000, 0x6100, 0x6200, 0xf265,
    ]);
    steps(&mut cpu, 8);
    assert_eq!(
        cpu.dump_to_vec_str()[1],
        "V0: 00   V1: 00  V2: 00  V3: 00"
    );
    steps(&mut cpu, 1);
    assert_eq!(
        cpu.dump_to_vec_str()[1],
        "V0: 11   V1: 22  V2: 33  V3: 00"
    );
}

#[test]
fn shift_left_reports_raw_high_bit() {
    // the flag register receives the masked high bit itself (0x80), not a
    // normalized 1; binary compatibility follows the raw-mask choice
    let mut cpu = boot(&[0x6381, 0x830e]);
    steps(&mut cpu, 2);
    let lines = cpu.dump_to_vec_str();
    assert_eq!(lines[1], "V0: 00   V1: 00  V2: 00  V3: 02");
    assert_eq!(lines[4], "VC: 00   VD: 00  VE: 00  VF: 80");
}

#[test]
fn shift_right_reports_low_bit() {
    let mut cpu = boot(&[0x6403, 0x8406]);
    steps(&mut cpu, 2);
    let lines = cpu.dump_to_vec_str();
    assert_eq!(lines[2], "V4: 01   V5: 00  V6: 00  V7: 00");
    assert_eq!(lines[4], "VC: 00   VD: 00  VE: 00  VF: 01");
}

#[test]
fn random_byte_is_masked() {
    let mut cpu = boot(&[0xc00f]);
    assert_eq!(cpu.execute_with_rand(vec![], 0xab), Ok(()));
    assert_eq!(
        cpu.dump_to_vec_str()[1],
        "V0: 0B   V1: 00  V2: 00  V3: 00"
    );
}

#[test]
fn key_skip_instructions() {
    let mut cpu = boot(&[0xe09e]);
    assert_eq!(cpu.execute(vec![0]), Ok(()));
    assert_eq!(cpu.dump_to_vec_str()[7], "PC: 0204");

    let mut cpu = boot(&[0xe09e]);
    assert_eq!(cpu.execute(vec![3]), Ok(()));
    assert_eq!(cpu.dump_to_vec_str()[7], "PC: 0202");

    let mut cpu = boot(&[0xe0a1]);
    assert_eq!(cpu.execute(vec![]), Ok(()));
    assert_eq!(cpu.dump_to_vec_str()[7], "PC: 0204");

    let mut cpu = boot(&[0xe0a1]);
    assert_eq!(cpu.execute(vec![0]), Ok(()));
    assert_eq!(cpu.dump_to_vec_str()[7], "PC: 0202");
}

#[test]
fn jump_with_offset_and_index_ops() {
    let mut cpu = boot(&[0x6007, 0xf029, 0xf01e]);
    steps(&mut cpu, 3);
    // LD F, V7=7 sets I to 7 * 5 = 35 = 0x23; ADD I, V0 adds 7 more
    assert_eq!(cpu.dump_to_vec_str()[6], "I : 002A");

    let mut cpu = boot(&[0x6004, 0xb200]);
    steps(&mut cpu, 2);
    assert_eq!(cpu.dump_to_vec_str()[7], "PC: 0204");
}

#[test]
fn skip_compare_instructions() {
    // SE taken, SNE not taken, register-register compares
    let mut cpu = boot(&[0x6005, 0x3005]);
    steps(&mut cpu, 2);
    assert_eq!(cpu.dump_to_vec_str()[7], "PC: 0206");

    let mut cpu = boot(&[0x6005, 0x4005]);
    steps(&mut cpu, 2);
    assert_eq!(cpu.dump_to_vec_str()[7], "PC: 0204");

    let mut cpu = boot(&[0x6005, 0x6105, 0x5010]);
    steps(&mut cpu, 3);
    assert_eq!(cpu.dump_to_vec_str()[7], "PC: 0208");

    let mut cpu = boot(&[0x6005, 0x6105, 0x9010]);
    steps(&mut cpu, 3);
    assert_eq!(cpu.dump_to_vec_str()[7], "PC: 0206");
}

#[test]
fn bitwise_instructions() {
    let mut cpu = boot(&[0x60cc, 0x61aa, 0x8011]);
    steps(&mut cpu, 3);
    assert_eq!(cpu.dump_to_vec_str()[1], "V0: EE   V1: AA  V2: 00  V3: 00");

    let mut cpu = boot(&[0x60cc, 0x61aa, 0x8012]);
    steps(&mut cpu, 3);
    assert_eq!(cpu.dump_to_vec_str()[1], "V0: 88   V1: AA  V2: 00  V3: 00");

    let mut cpu = boot(&[0x60cc, 0x61aa, 0x8013]);
    steps(&mut cpu, 3);
    assert_eq!(cpu.dump_to_vec_str()[1], "V0: 66   V1: AA  V2: 00  V3: 00");
}

#[test]
fn add_immediate_wraps_without_flag() {
    let mut cpu = boot(&[0x60ff, 0x7002]);
    steps(&mut cpu, 2);
    let lines = cpu.dump_to_vec_str();
    assert_eq!(lines[1], "V0: 01   V1: 00  V2: 00  V3: 00");
    assert_eq!(lines[4], "VC: 00   VD: 00  VE: 00  VF: 00");
}

#[test]
fn timer_register_moves() {
    let mut cpu = boot(&[0x6009, 0xf015, 0xf107]);
    steps(&mut cpu, 3);
    let lines = cpu.dump_to_vec_str();
    assert_eq!(lines[1], "V0: 09   V1: 09  V2: 00  V3: 00");
    assert_eq!(lines[5], "DT: 09   ST: 00");
}

#[test]
fn get_next_n_instr_reads_words() {
    let cpu = boot(&[0x6123, 0xa111]);
    assert_eq!(cpu.get_next_n_instr(2), vec![0x6123, 0xa111]);
}

#[test]
fn load_rom_bounds() {
    let mut cpu = Cpu::new(Memory::new(), Gpu::new());
    let fits = vec![0u8; 3584];
    assert_eq!(cpu.load_rom(fits.as_slice()), Ok(()));
    let too_long = vec![0u8; 3585];
    assert_eq!(
        cpu.load_rom(too_long.as_slice()),
        Err(Fault::MemoryBoundsFault)
    );
}

#[test]
fn random_with_zero_mask_is_zero() {
    // whatever byte the ambient source draws, the zero mask clears it
    let mut cpu = boot(&[0xc000, 0x6101]);
    steps(&mut cpu, 2);
    assert_eq!(
        cpu.dump_to_vec_str()[1],
        "V0: 00   V1: 01  V2: 00  V3: 00"
    );
}
