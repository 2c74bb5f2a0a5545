use chip8::cpu::{Cpu, Effect, Mode};
use chip8::display::Display;
use chip8::fault::Fault;
use chip8::instruction::Instruction;

fn run(cpu: &mut Cpu, disp: &mut Display, ins: Instruction) -> Result<Effect, Fault> {
    cpu.execute_with(&ins, disp, 0, 0)
}

fn set(cpu: &mut Cpu, disp: &mut Display, reg: usize, v: u8) {
    assert_eq!(run(cpu, disp, Instruction::SetConst(reg, v)), Ok(Effect::Done));
}

fn lit_count(disp: &Display) -> usize {
    let mut n = 0;
    for y in 0..64 {
        for x in 0..128 {
            if disp.is_lit(x, y) {
                n += 1;
            }
        }
    }
    n
}

#[test]
fn decode_set_const() {
    assert_eq!(Instruction::decode(0x6A3C), Ok(Instruction::SetConst(0xA, 0x3C)));
}

#[test]
fn decode_families() {
    assert_eq!(Instruction::decode(0x00C5), Ok(Instruction::ScrollDown(5)));
    assert_eq!(Instruction::decode(0x00D7), Ok(Instruction::ScrollUp(7)));
    assert_eq!(Instruction::decode(0x00E0), Ok(Instruction::Clear));
    assert_eq!(Instruction::decode(0x00EE), Ok(Instruction::Return));
    assert_eq!(Instruction::decode(0x00FB), Ok(Instruction::ScrollRight));
    assert_eq!(Instruction::decode(0x00FC), Ok(Instruction::ScrollLeft));
    assert_eq!(Instruction::decode(0x00FE), Ok(Instruction::Lores));
    assert_eq!(Instruction::decode(0x00FF), Ok(Instruction::Hires));
    assert_eq!(Instruction::decode(0x1ABC), Ok(Instruction::Jump(0xABC)));
    assert_eq!(Instruction::decode(0x2123), Ok(Instruction::Call(0x123)));
    assert_eq!(Instruction::decode(0x3412), Ok(Instruction::SkipEqualConst(4, 0x12)));
    assert_eq!(Instruction::decode(0x4F00), Ok(Instruction::SkipUnequalConst(0xF, 0)));
    assert_eq!(Instruction::decode(0x5120), Ok(Instruction::SkipEqualReg(1, 2)));
    assert_eq!(Instruction::decode(0x5122), Ok(Instruction::SaveRange(1, 2)));
    assert_eq!(Instruction::decode(0x5343), Ok(Instruction::LoadRange(3, 4)));
    assert_eq!(Instruction::decode(0x7301), Ok(Instruction::AddConst(3, 1)));
    assert_eq!(Instruction::decode(0x8AB0), Ok(Instruction::SetReg(0xA, 0xB)));
    assert_eq!(Instruction::decode(0x8AB1), Ok(Instruction::Or(0xA, 0xB)));
    assert_eq!(Instruction::decode(0x8AB2), Ok(Instruction::And(0xA, 0xB)));
    assert_eq!(Instruction::decode(0x8AB3), Ok(Instruction::Xor(0xA, 0xB)));
    assert_eq!(Instruction::decode(0x8AB4), Ok(Instruction::AddReg(0xA, 0xB)));
    assert_eq!(Instruction::decode(0x8AB5), Ok(Instruction::SubRFromL(0xA, 0xB)));
    assert_eq!(Instruction::decode(0x8AB6), Ok(Instruction::RShift(0xA, 0xB)));
    assert_eq!(Instruction::decode(0x8AB7), Ok(Instruction::SubLFromR(0xA, 0xB)));
    assert_eq!(Instruction::decode(0x8ABE), Ok(Instruction::LShift(0xA, 0xB)));
    assert_eq!(Instruction::decode(0x9120), Ok(Instruction::SkipUnequalReg(1, 2)));
    assert_eq!(Instruction::decode(0xA2F0), Ok(Instruction::SetIndex(0x2F0)));
    assert_eq!(Instruction::decode(0xB123), Ok(Instruction::JumpOffset(0x123)));
    assert_eq!(Instruction::decode(0xC50F), Ok(Instruction::Rand(5, 0x0F)));
    assert_eq!(Instruction::decode(0xD125), Ok(Instruction::Draw(1, 2, 5)));
    assert_eq!(Instruction::decode(0xE39E), Ok(Instruction::SkipKey(3)));
    assert_eq!(Instruction::decode(0xE3A1), Ok(Instruction::SkipNotKey(3)));
    assert_eq!(Instruction::decode(0xF000), Ok(Instruction::SetIndexWide));
    assert_eq!(Instruction::decode(0xF002), Ok(Instruction::Audio));
    assert_eq!(Instruction::decode(0xF207), Ok(Instruction::GetDelay(2)));
    assert_eq!(Instruction::decode(0xF20A), Ok(Instruction::GetKey(2)));
    assert_eq!(Instruction::decode(0xF215), Ok(Instruction::SetDelay(2)));
    assert_eq!(Instruction::decode(0xF218), Ok(Instruction::SetSound(2)));
    assert_eq!(Instruction::decode(0xF21E), Ok(Instruction::AddIndex(2)));
    assert_eq!(Instruction::decode(0xF229), Ok(Instruction::Font(2)));
    assert_eq!(Instruction::decode(0xF233), Ok(Instruction::ConvertToDecimal(2)));
    assert_eq!(Instruction::decode(0xF73A), Ok(Instruction::SetPitch(7)));
    assert_eq!(Instruction::decode(0xF255), Ok(Instruction::Store(2)));
    assert_eq!(Instruction::decode(0xF265), Ok(Instruction::Load(2)));
}

#[test]
fn decode_malformed_words() {
    for w in [0x0000u16, 0x00E1, 0x5001, 0x8008, 0x9001, 0xE000, 0xF001, 0xF0FF] {
        assert_eq!(Instruction::decode(w), Err(Fault::Malformed(w)));
    }
}

#[test]
fn add_with_carry() {
    let mut cpu = Cpu::with_mode(Mode::Cosmac);
    let mut disp = Display::new();
    set(&mut cpu, &mut disp, 1, 200);
    set(&mut cpu, &mut disp, 2, 100);
    run(&mut cpu, &mut disp, Instruction::AddReg(1, 2)).unwrap();
    assert_eq!(cpu.reg(1), 44);
    assert_eq!(cpu.reg(0xF), 1);
    set(&mut cpu, &mut disp, 1, 20);
    run(&mut cpu, &mut disp, Instruction::AddReg(1, 2)).unwrap();
    assert_eq!(cpu.reg(1), 120);
    assert_eq!(cpu.reg(0xF), 0);
}

#[test]
fn sub_with_borrow() {
    let mut cpu = Cpu::with_mode(Mode::Cosmac);
    let mut disp = Display::new();
    set(&mut cpu, &mut disp, 1, 100);
    set(&mut cpu, &mut disp, 2, 200);
    run(&mut cpu, &mut disp, Instruction::SubRFromL(1, 2)).unwrap();
    assert_eq!(cpu.reg(1), 156);
    assert_eq!(cpu.reg(0xF), 0);
    set(&mut cpu, &mut disp, 1, 100);
    run(&mut cpu, &mut disp, Instruction::SubLFromR(1, 2)).unwrap();
    assert_eq!(cpu.reg(1), 100);
    assert_eq!(cpu.reg(0xF), 1);
    set(&mut cpu, &mut disp, 1, 7);
    set(&mut cpu, &mut disp, 2, 7);
    run(&mut cpu, &mut disp, Instruction::SubRFromL(1, 2)).unwrap();
    assert_eq!(cpu.reg(1), 0);
    assert_eq!(cpu.reg(0xF), 1);
}

#[test]
fn logic_clears_flag() {
    let mut cpu = Cpu::with_mode(Mode::Super);
    let mut disp = Display::new();
    set(&mut cpu, &mut disp, 0xF, 9);
    set(&mut cpu, &mut disp, 1, 0b1100);
    set(&mut cpu, &mut disp, 2, 0b1010);
    run(&mut cpu, &mut disp, Instruction::Or(1, 2)).unwrap();
    assert_eq!(cpu.reg(1), 0b1110);
    assert_eq!(cpu.reg(0xF), 0);
    set(&mut cpu, &mut disp, 0xF, 9);
    run(&mut cpu, &mut disp, Instruction::And(1, 2)).unwrap();
    assert_eq!(cpu.reg(1), 0b1010);
    assert_eq!(cpu.reg(0xF), 0);
    run(&mut cpu, &mut disp, Instruction::Xor(1, 2)).unwrap();
    assert_eq!(cpu.reg(1), 0);
}

#[test]
fn shift_polarity() {
    let mut cpu = Cpu::with_mode(Mode::Super);
    let mut disp = Display::new();
    set(&mut cpu, &mut disp, 3, 0x81);
    run(&mut cpu, &mut disp, Instruction::LShift(3, 4)).unwrap();
    assert_eq!(cpu.reg(3), 0x02);
    assert_eq!(cpu.reg(0xF), 1);
    set(&mut cpu, &mut disp, 3, 0x03);
    run(&mut cpu, &mut disp, Instruction::RShift(3, 4)).unwrap();
    assert_eq!(cpu.reg(3), 0x01);
    assert_eq!(cpu.reg(0xF), 1);
}

#[test]
fn cosmac_shift_reads_second_register() {
    let mut cpu = Cpu::with_mode(Mode::Cosmac);
    let mut disp = Display::new();
    set(&mut cpu, &mut disp, 3, 0xFF);
    set(&mut cpu, &mut disp, 4, 0x40);
    run(&mut cpu, &mut disp, Instruction::LShift(3, 4)).unwrap();
    assert_eq!(cpu.reg(3), 0x80);
    assert_eq!(cpu.reg(0xF), 0);
}

#[test]
fn bcd_digits() {
    let mut cpu = Cpu::with_mode(Mode::Cosmac);
    let mut disp = Display::new();
    set(&mut cpu, &mut disp, 5, 157);
    run(&mut cpu, &mut disp, Instruction::SetIndex(0x300)).unwrap();
    run(&mut cpu, &mut disp, Instruction::ConvertToDecimal(5)).unwrap();
    assert_eq!(cpu.mem_at(0x300), 1);
    assert_eq!(cpu.mem_at(0x301), 5);
    assert_eq!(cpu.mem_at(0x302), 7);
    assert_eq!(cpu.index(), 0x300);
}

#[test]
fn font_address() {
    let mut cpu = Cpu::with_mode(Mode::Xo);
    let mut disp = Display::new();
    set(&mut cpu, &mut disp, 2, 0xA);
    run(&mut cpu, &mut disp, Instruction::Font(2)).unwrap();
    assert_eq!(cpu.index(), 0x82);
    assert_eq!(cpu.mem_at(0x82), 0xF0);
    set(&mut cpu, &mut disp, 2, 0x1A);
    run(&mut cpu, &mut disp, Instruction::Font(2)).unwrap();
    assert_eq!(cpu.index(), 0x82);
}

#[test]
fn new_machine_state() {
    let cpu = Cpu::with_mode(Mode::Super);
    assert_eq!(cpu.pc(), 0x200);
    assert_eq!(cpu.index(), 0);
    assert_eq!(cpu.mode(), Mode::Super);
    assert_eq!(cpu.stack_depth(), 0);
    assert_eq!(cpu.mem_at(0x50), 0xF0);
    assert_eq!(cpu.mem_at(0x9F), 0x80);
    assert_eq!(cpu.mem_at(0xA0), 0);
    assert_eq!(cpu.mem_at(0x4F), 0);
}

fn draw_setup(mode: Mode) -> (Cpu, Display) {
    let mut cpu = Cpu::with_mode(mode);
    let mut disp = Display::new();
    set(&mut cpu, &mut disp, 0, 0xFF);
    run(&mut cpu, &mut disp, Instruction::SetIndex(0x300)).unwrap();
    run(&mut cpu, &mut disp, Instruction::Store(0)).unwrap();
    run(&mut cpu, &mut disp, Instruction::SetIndex(0x300)).unwrap();
    set(&mut cpu, &mut disp, 1, 3);
    set(&mut cpu, &mut disp, 2, 4);
    (cpu, disp)
}

#[test]
fn draw_collision() {
    let (mut cpu, mut disp) = draw_setup(Mode::Cosmac);
    assert_eq!(run(&mut cpu, &mut disp, Instruction::Draw(1, 2, 1)), Ok(Effect::Done));
    assert_eq!(cpu.reg(0xF), 0);
    assert_eq!(lit_count(&disp), 8 * 4);
    assert!(disp.is_lit(6, 8) && disp.is_lit(7, 9) && disp.is_lit(21, 9));
    assert!(!disp.is_lit(22, 8));
    disp.update();
    assert_eq!(run(&mut cpu, &mut disp, Instruction::Draw(1, 2, 1)), Ok(Effect::Done));
    assert_eq!(cpu.reg(0xF), 1);
    assert_eq!(lit_count(&disp), 0);
}

#[test]
fn draw_waits_for_frame() {
    let (mut cpu, mut disp) = draw_setup(Mode::Super);
    run(&mut cpu, &mut disp, Instruction::Draw(1, 2, 1)).unwrap();
    assert!(!disp.just_updated());
    let pc = cpu.pc();
    assert_eq!(run(&mut cpu, &mut disp, Instruction::Draw(1, 2, 1)), Ok(Effect::Wait));
    assert_eq!(cpu.pc(), pc - 2);
    assert_eq!(lit_count(&disp), 32);
}

#[test]
fn draw_clips_at_edge_and_wraps_start() {
    let (mut cpu, mut disp) = draw_setup(Mode::Super);
    run(&mut cpu, &mut disp, Instruction::Hires).unwrap();
    set(&mut cpu, &mut disp, 1, 124 + 128);
    set(&mut cpu, &mut disp, 2, 63);
    run(&mut cpu, &mut disp, Instruction::Draw(1, 2, 1)).unwrap();
    assert_eq!(lit_count(&disp), 4);
    assert!(disp.is_lit(127, 63) && disp.is_lit(124, 63));
}

#[test]
fn zero_height_draw() {
    let (mut cpu, mut disp) = draw_setup(Mode::Cosmac);
    set(&mut cpu, &mut disp, 0xF, 1);
    assert_eq!(run(&mut cpu, &mut disp, Instruction::Draw(1, 2, 0)), Ok(Effect::Done));
    assert_eq!(lit_count(&disp), 0);
    assert_eq!(cpu.reg(0xF), 0);
    let (mut cpu, mut disp) = draw_setup(Mode::Super);
    run(&mut cpu, &mut disp, Instruction::Hires).unwrap();
    run(&mut cpu, &mut disp, Instruction::Draw(1, 2, 0)).unwrap();
    // first row of the 16x16 sprite: 0xFF then 0x00 (memory after 0x300 is empty)
    assert_eq!(lit_count(&disp), 8);
}

#[test]
fn draw_out_of_memory() {
    let mut cpu = Cpu::with_mode(Mode::Xo);
    let mut disp = Display::new();
    set(&mut cpu, &mut disp, 0, 0xFF);
    set(&mut cpu, &mut disp, 1, 0xFF);
    cpu.load(&[0xFF, 0xF0]);
    run(&mut cpu, &mut disp, Instruction::SetIndexWide).unwrap();
    assert_eq!(cpu.index(), 0xFFF0);
    assert_eq!(run(&mut cpu, &mut disp, Instruction::Draw(0, 0, 0)), Err(Fault::AddressOutOfRange));
    assert!(disp.just_updated());
    assert_eq!(run(&mut cpu, &mut disp, Instruction::Draw(0, 0, 15)), Ok(Effect::Done));
}

#[test]
fn mode_gating() {
    let mut cpu = Cpu::with_mode(Mode::Cosmac);
    let mut disp = Display::new();
    assert_eq!(run(&mut cpu, &mut disp, Instruction::SetIndexWide), Err(Fault::Unsupported));
    assert_eq!(run(&mut cpu, &mut disp, Instruction::Audio), Err(Fault::Unsupported));
    assert_eq!(run(&mut cpu, &mut disp, Instruction::Hires), Err(Fault::Unsupported));
    assert_eq!(run(&mut cpu, &mut disp, Instruction::ScrollDown(1)), Err(Fault::Unsupported));
    let mut cpu = Cpu::with_mode(Mode::Super);
    assert_eq!(run(&mut cpu, &mut disp, Instruction::SaveRange(0, 1)), Err(Fault::Unsupported));
    assert_eq!(run(&mut cpu, &mut disp, Instruction::SetPitch(1)), Err(Fault::Unsupported));

    let mut cpu = Cpu::with_mode(Mode::Xo);
    let mut disp = Display::new();
    disp.set_just_updated(false);
    cpu.load(&[0x12, 0x34]);
    assert_eq!(run(&mut cpu, &mut disp, Instruction::SetIndexWide), Ok(Effect::Done));
    assert_eq!(cpu.index(), 0x1234);
    assert_eq!(cpu.pc(), 0x202);
    assert!(!disp.just_updated());
    run(&mut cpu, &mut disp, Instruction::SetIndex(0x50)).unwrap();
    let expected = vec![
        0xF0, 0x90, 0x90, 0x90, 0xF0, 0x20, 0x60, 0x20, 0x20, 0x70, 0xF0, 0x10, 0xF0, 0x80, 0xF0,
        0xF0,
    ];
    assert_eq!(run(&mut cpu, &mut disp, Instruction::Audio), Ok(Effect::Pattern(expected)));
    assert!(!disp.just_updated());
    disp.update();
    assert_eq!(run(&mut cpu, &mut disp, Instruction::Audio), Ok(Effect::Pattern(vec![
        0xF0, 0x90, 0x90, 0x90, 0xF0, 0x20, 0x60, 0x20, 0x20, 0x70, 0xF0, 0x10, 0xF0, 0x80, 0xF0,
        0xF0,
    ])));
    assert!(disp.just_updated());
    set(&mut cpu, &mut disp, 4, 200);
    assert_eq!(run(&mut cpu, &mut disp, Instruction::SetPitch(4)), Ok(Effect::Pitch(200)));
}

#[test]
fn resolution_switch_clears_in_xo() {
    for (mode, kept) in [(Mode::Xo, 0), (Mode::Super, 8)] {
        let (mut cpu, mut disp) = draw_setup(mode);
        run(&mut cpu, &mut disp, Instruction::Hires).unwrap();
        run(&mut cpu, &mut disp, Instruction::Draw(1, 2, 1)).unwrap();
        assert_eq!(lit_count(&disp), 8);
        run(&mut cpu, &mut disp, Instruction::Hires).unwrap();
        assert!(disp.is_hires());
        assert_eq!(lit_count(&disp), kept);
        run(&mut cpu, &mut disp, Instruction::Lores).unwrap();
        assert!(!disp.is_hires());
        assert_eq!(disp.width(), 64);
        assert_eq!(lit_count(&disp), kept);
    }
}

#[test]
fn store_load_round_trip() {
    for (mode, advance) in [(Mode::Cosmac, 6u16), (Mode::Super, 0), (Mode::Xo, 0)] {
        let mut cpu = Cpu::with_mode(mode);
        let mut disp = Display::new();
        for r in 0..6 {
            set(&mut cpu, &mut disp, r, 10 * r as u8 + 3);
        }
        run(&mut cpu, &mut disp, Instruction::SetIndex(0x400)).unwrap();
        run(&mut cpu, &mut disp, Instruction::Store(5)).unwrap();
        assert_eq!(cpu.index(), 0x400 + advance);
        for r in 0..6 {
            set(&mut cpu, &mut disp, r, 0);
        }
        run(&mut cpu, &mut disp, Instruction::SetIndex(0x400)).unwrap();
        run(&mut cpu, &mut disp, Instruction::Load(5)).unwrap();
        assert_eq!(cpu.index(), 0x400 + advance);
        for r in 0..6 {
            assert_eq!(cpu.reg(r), 10 * r as u8 + 3);
        }
    }
}

#[test]
fn save_and_load_ranges() {
    let mut cpu = Cpu::with_mode(Mode::Xo);
    let mut disp = Display::new();
    set(&mut cpu, &mut disp, 2, 7);
    set(&mut cpu, &mut disp, 3, 8);
    set(&mut cpu, &mut disp, 4, 9);
    run(&mut cpu, &mut disp, Instruction::SetIndex(0x500)).unwrap();
    run(&mut cpu, &mut disp, Instruction::SaveRange(2, 4)).unwrap();
    assert_eq!(cpu.index(), 0x500);
    assert_eq!((cpu.mem_at(0x500), cpu.mem_at(0x501), cpu.mem_at(0x502)), (7, 8, 9));
    assert_eq!(cpu.mem_at(0x503), 0);
    run(&mut cpu, &mut disp, Instruction::LoadRange(10, 12)).unwrap();
    assert_eq!((cpu.reg(10), cpu.reg(11), cpu.reg(12)), (7, 8, 9));
    run(&mut cpu, &mut disp, Instruction::SaveRange(4, 2)).unwrap();
    assert_eq!(cpu.mem_at(0x500), 7);
}

#[test]
fn calls_and_returns() {
    let mut cpu = Cpu::with_mode(Mode::Cosmac);
    let mut disp = Display::new();
    assert_eq!(run(&mut cpu, &mut disp, Instruction::Return), Err(Fault::StackUnderflow));
    run(&mut cpu, &mut disp, Instruction::Call(0x345)).unwrap();
    assert_eq!(cpu.pc(), 0x345);
    assert_eq!(cpu.stack_depth(), 1);
    run(&mut cpu, &mut disp, Instruction::Return).unwrap();
    assert_eq!(cpu.pc(), 0x200);
    assert_eq!(cpu.stack_depth(), 0);
    set(&mut cpu, &mut disp, 0, 0x10);
    set(&mut cpu, &mut disp, 1, 0x99);
    run(&mut cpu, &mut disp, Instruction::JumpOffset(0x300)).unwrap();
    assert_eq!(cpu.pc(), 0x310);
    run(&mut cpu, &mut disp, Instruction::Jump(0x222)).unwrap();
    assert_eq!(cpu.pc(), 0x222);
}

#[test]
fn skips() {
    let mut cpu = Cpu::with_mode(Mode::Cosmac);
    let mut disp = Display::new();
    set(&mut cpu, &mut disp, 1, 5);
    set(&mut cpu, &mut disp, 2, 5);
    run(&mut cpu, &mut disp, Instruction::SkipEqualConst(1, 5)).unwrap();
    assert_eq!(cpu.pc(), 0x202);
    run(&mut cpu, &mut disp, Instruction::SkipUnequalConst(1, 5)).unwrap();
    assert_eq!(cpu.pc(), 0x202);
    run(&mut cpu, &mut disp, Instruction::SkipEqualReg(1, 2)).unwrap();
    assert_eq!(cpu.pc(), 0x204);
    run(&mut cpu, &mut disp, Instruction::SkipUnequalReg(1, 2)).unwrap();
    assert_eq!(cpu.pc(), 0x204);
}

#[test]
fn key_skips_and_latch() {
    let mut cpu = Cpu::with_mode(Mode::Cosmac);
    let mut disp = Display::new();
    set(&mut cpu, &mut disp, 1, 0xC);
    assert_eq!(cpu.execute_with(&Instruction::SkipKey(1), &mut disp, 1 << 0xC, 0), Ok(Effect::Done));
    assert_eq!(cpu.pc(), 0x202);
    assert!(disp.just_pressed_key());
    cpu.execute_with(&Instruction::SkipNotKey(1), &mut disp, 0, 0).unwrap();
    assert_eq!(cpu.pc(), 0x204);
    assert!(!disp.just_pressed_key());
    set(&mut cpu, &mut disp, 1, 0x20);
    cpu.execute_with(&Instruction::SkipKey(1), &mut disp, 0xFFFF, 0).unwrap();
    assert_eq!(cpu.pc(), 0x204);
}

#[test]
fn key_wait() {
    let mut cpu = Cpu::with_mode(Mode::Cosmac);
    let mut disp = Display::new();
    // nothing down: wait, register unchanged
    set(&mut cpu, &mut disp, 3, 0x77);
    assert_eq!(cpu.execute_with(&Instruction::GetKey(3), &mut disp, 0, 0), Ok(Effect::Wait));
    assert_eq!(cpu.pc(), 0x1FE);
    assert_eq!(cpu.reg(3), 0x77);
    assert!(!disp.just_pressed_key());
    // keys 5 and 9 down: the lower one is taken, still waiting for release
    cpu.execute_with(&Instruction::Jump(0x202), &mut disp, 0, 0).unwrap();
    let keys = (1 << 5) | (1 << 9);
    assert_eq!(cpu.execute_with(&Instruction::GetKey(3), &mut disp, keys, 0), Ok(Effect::Wait));
    assert_eq!(cpu.reg(3), 5);
    assert!(disp.just_pressed_key());
    // released: the wait is over
    cpu.execute_with(&Instruction::Jump(0x202), &mut disp, 0, 0).unwrap();
    assert_eq!(cpu.execute_with(&Instruction::GetKey(3), &mut disp, 0, 0), Ok(Effect::Done));
    assert_eq!(cpu.pc(), 0x202);
    assert_eq!(cpu.reg(3), 5);
    assert!(!disp.just_pressed_key());
}

#[test]
fn timers_and_index() {
    let mut cpu = Cpu::with_mode(Mode::Cosmac);
    let mut disp = Display::new();
    set(&mut cpu, &mut disp, 1, 2);
    run(&mut cpu, &mut disp, Instruction::SetDelay(1)).unwrap();
    run(&mut cpu, &mut disp, Instruction::SetSound(1)).unwrap();
    assert!(cpu.dec_timers());
    assert_eq!(cpu.delay(), 1);
    assert!(!cpu.dec_timers());
    assert!(!cpu.dec_timers());
    assert_eq!((cpu.delay(), cpu.sound()), (0, 0));
    set(&mut cpu, &mut disp, 1, 9);
    run(&mut cpu, &mut disp, Instruction::SetDelay(1)).unwrap();
    run(&mut cpu, &mut disp, Instruction::GetDelay(4)).unwrap();
    assert_eq!(cpu.reg(4), 9);
    set(&mut cpu, &mut disp, 1, 0x20);
    run(&mut cpu, &mut disp, Instruction::SetIndex(0xFF0)).unwrap();
    run(&mut cpu, &mut disp, Instruction::AddIndex(1)).unwrap();
    assert_eq!(cpu.index(), 0x1010);
    set(&mut cpu, &mut disp, 1, 250);
    run(&mut cpu, &mut disp, Instruction::AddConst(1, 10)).unwrap();
    assert_eq!(cpu.reg(1), 4);
}

#[test]
fn random_is_masked() {
    let mut cpu = Cpu::with_mode(Mode::Cosmac);
    let mut disp = Display::new();
    cpu.execute_with(&Instruction::Rand(2, 0x0F), &mut disp, 0, 0xAB).unwrap();
    assert_eq!(cpu.reg(2), 0x0B);
    for _ in 0..20 {
        cpu.execute(&Instruction::Rand(2, 0x0F), &mut disp, 0).unwrap();
        assert!(cpu.reg(2) <= 0x0F);
        cpu.execute(&Instruction::Rand(3, 0), &mut disp, 0).unwrap();
        assert_eq!(cpu.reg(3), 0);
    }
}

#[test]
fn fetch_and_cycle() {
    let mut cpu = Cpu::with_mode(Mode::Cosmac);
    let mut disp = Display::new();
    assert_eq!(cpu.load(&[0x6A, 0x3C, 0x5A, 0x01]), 4);
    assert_eq!(cpu.fetch(), Ok(Instruction::SetConst(0xA, 0x3C)));
    assert_eq!(cpu.pc(), 0x202);
    assert_eq!(cpu.cycle(&mut disp, 0), Err(Fault::Malformed(0x5A01)));
    assert_eq!(cpu.pc(), 0x202);
    cpu.execute_with(&Instruction::Jump(0x200), &mut disp, 0, 0).unwrap();
    assert_eq!(cpu.cycle(&mut disp, 0), Ok(Effect::Done));
    assert_eq!(cpu.reg(0xA), 0x3C);
}

#[test]
fn load_is_cut_at_end_of_memory() {
    let mut cpu = Cpu::with_mode(Mode::Cosmac);
    let rom = vec![0xAAu8; 0x10000];
    assert_eq!(cpu.load(&rom), 0x10000 - 0x200);
    assert_eq!(cpu.mem_at(0x1FF), 0);
    assert_eq!(cpu.mem_at(0x200), 0xAA);
    assert_eq!(cpu.mem_at(0xFFFF), 0xAA);
    assert_eq!(cpu.fetch(), Ok(Instruction::SetIndex(0xAAA)));
}

#[test]
fn bcd_out_of_range() {
    let mut cpu = Cpu::with_mode(Mode::Xo);
    let mut disp = Display::new();
    cpu.load(&[0xFF, 0xFE]);
    run(&mut cpu, &mut disp, Instruction::SetIndexWide).unwrap();
    assert_eq!(run(&mut cpu, &mut disp, Instruction::ConvertToDecimal(0)), Err(Fault::AddressOutOfRange));
    assert_eq!(run(&mut cpu, &mut disp, Instruction::Store(1)), Ok(Effect::Done));
    assert_eq!(run(&mut cpu, &mut disp, Instruction::Store(2)), Err(Fault::AddressOutOfRange));
    assert_eq!(run(&mut cpu, &mut disp, Instruction::Audio), Err(Fault::AddressOutOfRange));
}

#[test]
fn scrolling() {
    let (mut cpu, mut disp) = draw_setup(Mode::Super);
    run(&mut cpu, &mut disp, Instruction::Hires).unwrap();
    set(&mut cpu, &mut disp, 1, 0);
    set(&mut cpu, &mut disp, 2, 0);
    run(&mut cpu, &mut disp, Instruction::Draw(1, 2, 1)).unwrap();
    run(&mut cpu, &mut disp, Instruction::ScrollDown(2)).unwrap();
    assert!(disp.is_lit(0, 3) && !disp.is_lit(0, 0));
    run(&mut cpu, &mut disp, Instruction::ScrollRight).unwrap();
    assert!(disp.is_lit(4, 3) && disp.is_lit(11, 3) && !disp.is_lit(3, 3));
    run(&mut cpu, &mut disp, Instruction::ScrollLeft).unwrap();
    run(&mut cpu, &mut disp, Instruction::ScrollLeft).unwrap();
    assert!(disp.is_lit(0, 3) && disp.is_lit(3, 3) && !disp.is_lit(4, 3));
    run(&mut cpu, &mut disp, Instruction::ScrollUp(0)).unwrap();
    assert!(disp.is_lit(0, 2) && !disp.is_lit(0, 3));
    run(&mut cpu, &mut disp, Instruction::ScrollUp(15)).unwrap();
    assert_eq!(lit_count(&disp), 0);
    disp.update();
    run(&mut cpu, &mut disp, Instruction::Draw(1, 2, 1)).unwrap();
    assert_eq!(lit_count(&disp), 8);
    run(&mut cpu, &mut disp, Instruction::Clear).unwrap();
    assert_eq!(lit_count(&disp), 0);
}

#[test]
fn display_pixel_toggle() {
    let mut disp = Display::new();
    assert_eq!((disp.width(), disp.height()), (64, 32));
    assert!(!disp.draw_at(1, 1));
    assert!(disp.is_lit(2, 2) && disp.is_lit(3, 3) && disp.is_lit(2, 3) && disp.is_lit(3, 2));
    assert!(disp.draw_at(1, 1));
    assert!(!disp.draw_at(64, 0));
    assert_eq!(lit_count(&disp), 0);
    disp.set_hires();
    assert_eq!((disp.width(), disp.height()), (128, 64));
    assert!(!disp.draw_at(127, 63));
    assert!(disp.is_lit(127, 63));
    assert!(!disp.key_pressed(1 << 3, 2));
    assert!(disp.key_pressed(1 << 3, 3));
    assert!(!disp.key_pressed(0xFFFF, 16));
    disp.set_lores();
    assert_eq!(disp.width(), 64);
}
