use chip8::{Chip8, ExecError, Fault};

fn load(words: &[u16]) -> Chip8 {
    let mut bytes = Vec::new();
    for w in words {
        bytes.push((w >> 8) as u8);
        bytes.push((w & 0xFF) as u8);
    }
    Chip8::new(&bytes).unwrap()
}

fn run(c: &mut Chip8, steps: usize) {
    for _ in 0..steps {
        c.step(None).unwrap();
    }
}

fn lit_pixels(c: &Chip8) -> usize {
    c.screen().iter().filter(|p| **p).count()
}

#[test]
fn op_cls_clears_screen() {
    let mut c = load(&[0xA000, 0xD015, 0x00E0]);
    run(&mut c, 2);
    assert!(lit_pixels(&c) > 0);
    run(&mut c, 1);
    assert_eq!(lit_pixels(&c), 0);
    assert_eq!(c.pc(), 0x206);
}

#[test]
fn op_ret_returns_after_call() {
    let mut c = load(&[0x2206, 0x0000, 0x0000, 0x00EE]);
    run(&mut c, 1);
    assert_eq!(c.pc(), 0x206);
    assert_eq!(c.stack_depth(), 1);
    run(&mut c, 1);
    assert_eq!(c.pc(), 0x202);
    assert_eq!(c.stack_depth(), 0);
}

#[test]
fn op_jp_sets_pc() {
    let mut c = load(&[0x1FFE]);
    run(&mut c, 1);
    assert_eq!(c.pc(), 0xFFE);
}

#[test]
fn op_call_pushes_and_jumps() {
    let mut c = load(&[0x2ABC]);
    run(&mut c, 1);
    assert_eq!(c.pc(), 0xABC);
    assert_eq!(c.stack_depth(), 1);
}

#[test]
fn op_se_imm_skips_on_equal() {
    let mut c = load(&[0x6005, 0x3005]);
    run(&mut c, 2);
    assert_eq!(c.pc(), 0x206);
    let mut c = load(&[0x6005, 0x3006]);
    run(&mut c, 2);
    assert_eq!(c.pc(), 0x204);
}

#[test]
fn op_sne_imm_skips_on_difference() {
    let mut c = load(&[0x6005, 0x4006]);
    run(&mut c, 2);
    assert_eq!(c.pc(), 0x206);
    let mut c = load(&[0x6005, 0x4005]);
    run(&mut c, 2);
    assert_eq!(c.pc(), 0x204);
}

#[test]
fn op_se_reg_skips_on_equal() {
    let mut c = load(&[0x60FF, 0x61FF, 0x5010]);
    run(&mut c, 3);
    assert_eq!(c.pc(), 0x208);
    let mut c = load(&[0x60FF, 0x61FE, 0x5010]);
    run(&mut c, 3);
    assert_eq!(c.pc(), 0x206);
}

#[test]
fn op_sne_reg_skips_on_difference() {
    let mut c = load(&[0x6000, 0x6101, 0x9010]);
    run(&mut c, 3);
    assert_eq!(c.pc(), 0x208);
    let mut c = load(&[0x6001, 0x6101, 0x9010]);
    run(&mut c, 3);
    assert_eq!(c.pc(), 0x206);
}

#[test]
fn op_ld_imm_sets_register() {
    let mut c = load(&[0x6EFF, 0x6F00]);
    run(&mut c, 2);
    assert_eq!(c.register(0xE), 0xFF);
    assert_eq!(c.register(0xF), 0x00);
    assert_eq!(c.pc(), 0x204);
}

#[test]
fn op_add_imm_wraps_without_flag() {
    let mut c = load(&[0x60FF, 0x7002]);
    run(&mut c, 2);
    assert_eq!(c.register(0), 0x01);
    assert_eq!(c.register(0xF), 0);
}

#[test]
fn op_ld_reg_copies() {
    let mut c = load(&[0x61AB, 0x8010]);
    run(&mut c, 2);
    assert_eq!(c.register(0), 0xAB);
    assert_eq!(c.register(1), 0xAB);
}

#[test]
fn op_or_and_xor() {
    let mut c = load(&[0x60F0, 0x610F, 0x8011]);
    run(&mut c, 3);
    assert_eq!(c.register(0), 0xFF);
    let mut c = load(&[0x60F0, 0x613C, 0x8012]);
    run(&mut c, 3);
    assert_eq!(c.register(0), 0x30);
    let mut c = load(&[0x60FF, 0x610F, 0x8013]);
    run(&mut c, 3);
    assert_eq!(c.register(0), 0xF0);
    assert_eq!(c.register(0xF), 0);
}

#[test]
fn op_add_reg_sets_carry() {
    let mut c = load(&[0x60FF, 0x6102, 0x8014]);
    run(&mut c, 3);
    assert_eq!(c.register(0), 0x01);
    assert_eq!(c.register(0xF), 1);
    let mut c = load(&[0x6F01, 0x60FE, 0x6101, 0x8014]);
    run(&mut c, 4);
    assert_eq!(c.register(0), 0xFF);
    assert_eq!(c.register(0xF), 0);
}

#[test]
fn op_sub_sets_no_borrow_flag() {
    let mut c = load(&[0x6005, 0x6107, 0x8015]);
    run(&mut c, 3);
    assert_eq!(c.register(0), 0xFE);
    assert_eq!(c.register(0xF), 0);
    let mut c = load(&[0x6007, 0x6107, 0x8015]);
    run(&mut c, 3);
    assert_eq!(c.register(0), 0);
    assert_eq!(c.register(0xF), 1);
}

#[test]
fn op_subn_subtracts_vx_from_vy_into_vx() {
    let mut c = load(&[0x6103, 0x6205, 0x8127]);
    run(&mut c, 3);
    assert_eq!(c.register(1), 0x02);
    assert_eq!(c.register(2), 0x05);
    assert_eq!(c.register(0xF), 1);
    let mut c = load(&[0x6105, 0x6207, 0x8127]);
    run(&mut c, 3);
    assert_eq!(c.register(1), 0x02);
    assert_eq!(c.register(2), 0x07);
    let mut c = load(&[0x6F01, 0x6105, 0x6203, 0x8127]);
    run(&mut c, 4);
    assert_eq!(c.register(1), 0xFE);
    assert_eq!(c.register(2), 0x03);
    assert_eq!(c.register(0xF), 0);
}

#[test]
fn op_sys_is_ignored() {
    let mut c = load(&[0x6107, 0xA123, 0x0123, 0x0FFF]);
    run(&mut c, 4);
    assert_eq!(c.pc(), 0x208);
    assert_eq!(c.register(1), 7);
    assert_eq!(c.index(), 0x123);
    assert_eq!(c.stack_depth(), 0);
    assert!(c.screen().iter().all(|p| !*p));
}

#[test]
fn op_shr_moves_bit_zero_to_flag() {
    let mut c = load(&[0x6005, 0x8006]);
    run(&mut c, 2);
    assert_eq!(c.register(0), 0x02);
    assert_eq!(c.register(0xF), 1);
    let mut c = load(&[0x6F01, 0x6004, 0x8006]);
    run(&mut c, 3);
    assert_eq!(c.register(0), 0x02);
    assert_eq!(c.register(0xF), 0);
}

#[test]
fn op_shl_moves_bit_seven_to_flag() {
    let mut c = load(&[0x6081, 0x800E]);
    run(&mut c, 2);
    assert_eq!(c.register(0), 0x02);
    assert_eq!(c.register(0xF), 1);
    let mut c = load(&[0x607F, 0x800E]);
    run(&mut c, 2);
    assert_eq!(c.register(0), 0xFE);
    assert_eq!(c.register(0xF), 0);
}

#[test]
fn op_shift_of_flag_register_shifts_the_flag() {
    let mut c = load(&[0x6F03, 0x8F06]);
    run(&mut c, 2);
    assert_eq!(c.register(0xF), 0);
    let mut c = load(&[0x6F80, 0x8F0E]);
    run(&mut c, 2);
    assert_eq!(c.register(0xF), 2);
}

#[test]
fn op_ld_i_sets_index() {
    let mut c = load(&[0xAFFF]);
    run(&mut c, 1);
    assert_eq!(c.index(), 0xFFF);
}

#[test]
fn op_jp_offset_adds_v0() {
    let mut c = load(&[0x6004, 0xB300]);
    run(&mut c, 2);
    assert_eq!(c.pc(), 0x304);
    let mut c = load(&[0x60FF, 0xBFFF]);
    run(&mut c, 2);
    assert_eq!(c.pc(), 0x10FE);
}

#[test]
fn op_rnd_masks_random_byte() {
    let mut c = load(&[0x60AA, 0xC000]);
    run(&mut c, 2);
    assert_eq!(c.register(0), 0);
    for _ in 0..20 {
        let mut c = load(&[0xC10F]);
        run(&mut c, 1);
        assert!(c.register(1) <= 0x0F);
    }
}

#[test]
fn op_drw_draws_font_glyph() {
    let mut c = load(&[0x6002, 0x6103, 0x6200, 0xF229, 0xD015]);
    run(&mut c, 5);
    let rows = [0xF0u8, 0x90, 0x90, 0x90, 0xF0];
    for (j, row) in rows.iter().enumerate() {
        for i in 0..8 {
            let bit = (row >> (7 - i)) & 1 == 1;
            assert_eq!(c.pixel(2 + i, 3 + j), bit);
        }
    }
    assert_eq!(lit_pixels(&c), 14);
    assert_eq!(c.register(0xF), 0);
}

#[test]
fn op_drw_of_zero_rows_reads_nothing() {
    let mut c = load(&[0xAFFF, 0x60FF, 0xF01E, 0x6F01, 0xD010]);
    run(&mut c, 5);
    assert_eq!(c.index(), 0x10FE);
    assert_eq!(c.register(0xF), 0);
    assert!(c.screen().iter().all(|p| !*p));
}

#[test]
fn op_skp_skips_when_key_down() {
    let mut c = load(&[0x6000, 0xE09E]);
    c.step(Some(("X".to_string(), true))).unwrap();
    assert!(c.key_pressed(0));
    c.step(None).unwrap();
    assert_eq!(c.pc(), 0x206);
    let mut c = load(&[0x6000, 0xE09E]);
    run(&mut c, 2);
    assert_eq!(c.pc(), 0x204);
}

#[test]
fn op_sknp_skips_when_key_up() {
    let mut c = load(&[0x600F, 0xE0A1]);
    run(&mut c, 2);
    assert_eq!(c.pc(), 0x206);
    let mut c = load(&[0x600F, 0xE0A1]);
    c.step(Some(("V".to_string(), true))).unwrap();
    c.step(None).unwrap();
    assert_eq!(c.pc(), 0x204);
}

#[test]
fn op_ld_from_dt_reads_delay_timer() {
    let mut c = load(&[0x600A, 0xF015, 0xF107]);
    run(&mut c, 3);
    assert_eq!(c.register(1), 10);
    assert_eq!(c.delay_timer(), 10);
}

#[test]
fn op_ld_k_waits_for_a_key_press() {
    let mut c = load(&[0xF30A, 0x6101]);
    run(&mut c, 1);
    assert!(c.is_waiting());
    assert_eq!(c.pc(), 0x202);
    c.step(None).unwrap();
    c.step(Some(("W".to_string(), false))).unwrap();
    c.step(Some(("Escape".to_string(), true))).unwrap();
    assert!(c.is_waiting());
    assert_eq!(c.pc(), 0x202);
    c.step(Some(("W".to_string(), true))).unwrap();
    assert!(!c.is_waiting());
    assert_eq!(c.register(3), 5);
    assert_eq!(c.pc(), 0x202);
    run(&mut c, 1);
    assert_eq!(c.register(1), 1);
}

#[test]
fn op_ld_dt_and_st_set_timers() {
    let mut c = load(&[0x60FF, 0xF015, 0x6107, 0xF118]);
    run(&mut c, 4);
    assert_eq!(c.delay_timer(), 0xFF);
    assert_eq!(c.sound_timer(), 7);
}

#[test]
fn op_add_i_adds_register() {
    let mut c = load(&[0xA0FF, 0x6001, 0xF01E]);
    run(&mut c, 3);
    assert_eq!(c.index(), 0x100);
    assert_eq!(c.register(0xF), 0);
}

#[test]
fn op_ld_f_points_at_glyph() {
    let mut c = load(&[0x600F, 0xF029]);
    run(&mut c, 2);
    assert_eq!(c.index(), 75);
    assert_eq!(c.memory(75), 0xF0);
    assert_eq!(c.memory(79), 0x80);
}

#[test]
fn op_ld_b_stores_decimal_digits() {
    let mut c = load(&[0x60FE, 0xA300, 0xF033]);
    run(&mut c, 3);
    assert_eq!(c.memory(0x300), 2);
    assert_eq!(c.memory(0x301), 5);
    assert_eq!(c.memory(0x302), 4);
    let mut c = load(&[0x6007, 0xAFFD, 0xF033]);
    run(&mut c, 3);
    assert_eq!(c.memory(0xFFD), 0);
    assert_eq!(c.memory(0xFFE), 0);
    assert_eq!(c.memory(0xFFF), 7);
}

#[test]
fn op_ld_to_i_stores_registers() {
    let mut c = load(&[0x6001, 0x6102, 0x6203, 0x6304, 0xA300, 0xF255]);
    run(&mut c, 6);
    assert_eq!(c.memory(0x300), 1);
    assert_eq!(c.memory(0x301), 2);
    assert_eq!(c.memory(0x302), 3);
    assert_eq!(c.memory(0x303), 0);
    assert_eq!(c.index(), 0x300);
}

#[test]
fn op_ld_from_i_loads_registers() {
    let mut c = load(&[0x6109, 0xA000, 0xF065]);
    run(&mut c, 3);
    assert_eq!(c.register(0), 0xF0);
    assert_eq!(c.register(1), 9);
    let mut c = load(&[0xA000, 0xF265]);
    run(&mut c, 2);
    assert_eq!(c.register(0), 0xF0);
    assert_eq!(c.register(1), 0x90);
    assert_eq!(c.register(2), 0x90);
    assert_eq!(c.register(3), 0);
}

#[test]
fn fault_on_invalid_instruction() {
    let mut c = load(&[0x6001, 0xF0FF]);
    run(&mut c, 1);
    assert_eq!(c.step(None), Err(Fault::InvalidInstruction { addr: 0x202, opcode: 0xF0FF }));
}

#[test]
fn fault_on_stack_overflow() {
    let mut c = load(&[0x2200]);
    run(&mut c, 16);
    assert_eq!(c.stack_depth(), 16);
    assert_eq!(
        c.step(None),
        Err(Fault::Exec { addr: 0x200, opcode: 0x2200, error: ExecError::StackOverflow })
    );
    assert_eq!(c.stack_depth(), 16);
}

#[test]
fn fault_on_stack_underflow() {
    let mut c = load(&[0x00EE]);
    assert_eq!(
        c.step(None),
        Err(Fault::Exec { addr: 0x200, opcode: 0x00EE, error: ExecError::StackUnderflow })
    );
}

#[test]
fn fault_on_memory_past_the_end() {
    let mut c = load(&[0xAFFE, 0xF033]);
    run(&mut c, 1);
    assert_eq!(
        c.step(None),
        Err(Fault::Exec { addr: 0x202, opcode: 0xF033, error: ExecError::MemoryOutOfRange })
    );
    let mut c = load(&[0xAFFF, 0xD012]);
    run(&mut c, 1);
    assert_eq!(
        c.step(None),
        Err(Fault::Exec { addr: 0x202, opcode: 0xD012, error: ExecError::MemoryOutOfRange })
    );
}

#[test]
fn fault_on_key_outside_keypad() {
    let mut c = load(&[0x6010, 0xE09E]);
    run(&mut c, 1);
    assert_eq!(
        c.step(None),
        Err(Fault::Exec { addr: 0x202, opcode: 0xE09E, error: ExecError::KeyOutOfRange })
    );
}

#[test]
fn fault_on_pc_past_memory() {
    let mut c = load(&[0x1FFF]);
    run(&mut c, 1);
    assert_eq!(c.step(None), Err(Fault::PcOutOfRange { addr: 0xFFF }));
}
