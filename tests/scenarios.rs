use chip8::{frame_sleep, get_key, timer_due, Chip8, Fault, LoadError, MAX_PROGRAM_SIZE};

fn load(words: &[u16]) -> Chip8 {
    let mut bytes = Vec::new();
    for w in words {
        bytes.push((w >> 8) as u8);
        bytes.push((w & 0xFF) as u8);
    }
    Chip8::new(&bytes).unwrap()
}

fn run(c: &mut Chip8, steps: usize) {
    for _ in 0..steps {
        c.step(None).unwrap();
    }
}

#[test]
fn cls_program_runs_once_and_halts_only_at_a_stop() {
    let mut c = Chip8::new(&[0x00, 0xE0]).unwrap();
    c.step(None).unwrap();
    assert!(c.screen().iter().all(|p| !*p));
    assert_eq!(c.pc(), 0x202);
    c.step(None).unwrap();
    assert_eq!(c.pc(), 0x204);
    let mut c = Chip8::new(&[0x00, 0xE0, 0xFF, 0xFF]).unwrap();
    c.step(None).unwrap();
    assert_eq!(c.pc(), 0x202);
    assert_eq!(c.step(None), Err(Fault::InvalidInstruction { addr: 0x202, opcode: 0xFFFF }));
}

#[test]
fn jump_to_self_loops_without_growing_the_stack() {
    let mut c = Chip8::new(&[0x12, 0x00]).unwrap();
    for _ in 0..1000 {
        c.step(None).unwrap();
        assert_eq!(c.pc(), 0x200);
        assert_eq!(c.stack_depth(), 0);
    }
}

#[test]
fn font_glyph_five_is_drawn_at_v0_v0() {
    let mut c = load(&[0x6005, 0xF029, 0xD005]);
    run(&mut c, 3);
    let glyph = [0xF0u8, 0x80, 0xF0, 0x10, 0xF0];
    for y in 0..32 {
        for x in 0..64 {
            let expected =
                (5..10).contains(&y) && (5..13).contains(&x) && (glyph[y - 5] >> (12 - x)) & 1 == 1;
            assert_eq!(c.pixel(x, y), expected, "pixel ({}, {})", x, y);
        }
    }
}

#[test]
fn drawing_twice_restores_the_screen() {
    let mut c = load(&[0x6005, 0x6103, 0x6207, 0xF229, 0xD015, 0xD015]);
    run(&mut c, 5);
    assert_eq!(c.register(0xF), 0);
    let after_first: Vec<bool> = c.screen().to_vec();
    assert!(after_first.iter().any(|p| *p));
    run(&mut c, 1);
    assert_eq!(c.register(0xF), 1);
    assert!(c.screen().iter().all(|p| !*p));
}

#[test]
fn collision_only_where_pixels_overlap() {
    let mut c = load(&[0x6000, 0x6100, 0xA000, 0xD011, 0x6008, 0xD011]);
    run(&mut c, 6);
    assert_eq!(c.register(0xF), 0);
    let mut c = load(&[0x6000, 0x6100, 0xA000, 0xD011, 0x6003, 0xD011]);
    run(&mut c, 6);
    assert_eq!(c.register(0xF), 1);
    assert!(c.pixel(0, 0) && c.pixel(1, 0) && c.pixel(2, 0));
    assert!(!c.pixel(3, 0));
    assert!(c.pixel(4, 0) && c.pixel(5, 0) && c.pixel(6, 0));
}

#[test]
fn sprite_wraps_around_both_edges() {
    let mut c = load(&[
        0x60FF, 0x61FF, 0x62FF, 0x63FF, 0xA300, 0xF355, 0x603C, 0x611E, 0xD014,
    ]);
    run(&mut c, 9);
    for y in 0..32 {
        for x in 0..64 {
            let expected = (x >= 60 || x < 4) && (y >= 30 || y < 2);
            assert_eq!(c.pixel(x, y), expected, "pixel ({}, {})", x, y);
        }
    }
}

#[test]
fn call_then_return_resumes_after_the_call() {
    let mut program = vec![0x60, 0x01, 0x23, 0x00];
    program.resize(0x100, 0);
    program.extend_from_slice(&[0x71, 0x01, 0x00, 0xEE]);
    let mut c = Chip8::new(&program).unwrap();
    run(&mut c, 2);
    assert_eq!(c.pc(), 0x300);
    assert_eq!(c.stack_depth(), 1);
    run(&mut c, 2);
    assert_eq!(c.pc(), 0x204);
    assert_eq!(c.register(1), 1);
    assert_eq!(c.stack_depth(), 0);
}

#[test]
fn delay_timer_decays_to_zero() {
    let mut c = load(&[0x600A, 0xF015, 0xF018]);
    run(&mut c, 3);
    for k in 0..10u8 {
        assert_eq!(c.delay_timer(), 10 - k);
        c.tick_timers();
    }
    assert_eq!(c.delay_timer(), 0);
    assert_eq!(c.sound_timer(), 0);
    c.tick_timers();
    c.tick_timers();
    assert_eq!(c.delay_timer(), 0);
}

#[test]
fn fresh_machine_state() {
    let c = Chip8::new(&[0xAB, 0xCD]).unwrap();
    assert_eq!(c.pc(), 0x200);
    assert_eq!(c.index(), 0);
    assert_eq!(c.memory(0), 0xF0);
    assert_eq!(c.memory(79), 0x80);
    assert_eq!(c.memory(80), 0);
    assert_eq!(c.memory(0x200), 0xAB);
    assert_eq!(c.memory(0x201), 0xCD);
    assert_eq!(c.memory(0x202), 0);
    for x in 0..16 {
        assert_eq!(c.register(x), 0);
        assert!(!c.key_pressed(x));
    }
    assert_eq!(c.stack_depth(), 0);
    assert!(!c.is_waiting());
    assert_eq!(c.screen().len(), 64 * 32);
}

#[test]
fn program_size_limit() {
    let largest = vec![0x12u8; MAX_PROGRAM_SIZE];
    let c = Chip8::new(&largest).unwrap();
    assert_eq!(c.memory(0xFFF), 0x12);
    let too_large = vec![0u8; MAX_PROGRAM_SIZE + 1];
    assert_eq!(
        Chip8::new(&too_large).err(),
        Some(LoadError::ProgramTooLarge { len: 0xE01 })
    );
    assert!(Chip8::new(&[]).is_ok());
}

#[test]
fn keypad_layout() {
    assert_eq!(get_key("1"), Some(1));
    assert_eq!(get_key("4"), Some(12));
    assert_eq!(get_key("Q"), Some(4));
    assert_eq!(get_key("R"), Some(13));
    assert_eq!(get_key("F"), Some(14));
    assert_eq!(get_key("X"), Some(0));
    assert_eq!(get_key("V"), Some(15));
    assert_eq!(get_key("q"), None);
    assert_eq!(get_key("5"), None);
    assert_eq!(get_key(""), None);
    assert_eq!(get_key("Escape"), None);
}

#[test]
fn poll_folds_key_transitions() {
    let mut c = load(&[0x1200]);
    assert_eq!(c.poll_keyboard(Some(("C".to_string(), true))), Some((11, true)));
    assert!(c.key_pressed(11));
    assert_eq!(c.poll_keyboard(Some(("C".to_string(), false))), Some((11, false)));
    assert!(!c.key_pressed(11));
    assert_eq!(c.poll_keyboard(Some(("Space".to_string(), true))), None);
    assert_eq!(c.poll_keyboard(None), None);
}

#[test]
fn timer_gate_at_sixty_hertz() {
    assert!(!timer_due(0));
    assert!(!timer_due(16_666_666));
    assert!(timer_due(16_666_667));
    assert!(timer_due(u64::MAX));
}

#[test]
fn throttle_sleeps_the_rest_of_the_period() {
    assert_eq!(frame_sleep(0), Some(1_000_000));
    assert_eq!(frame_sleep(400_000), Some(600_000));
    assert_eq!(frame_sleep(999_999), Some(1));
    assert_eq!(frame_sleep(1_000_000), None);
    assert_eq!(frame_sleep(5_000_000), None);
}
