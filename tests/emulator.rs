use emulator::decimal::push_decimal;
use emulator::emulator::{Effect, Emulator, EmulatorError, Status, WINDOW_BYTES};
use emulator::instructions::Instruction;
use emulator::program::{assemble_program, fibonacci_program};
use emulator::registries::{standard_image, Value, REGISTRY_COUNT};

/// Runs a program held in memory through the fetch loop, fetching at most
/// `window` bytes at a time, for at most `passes` windows.
fn run_store(emu: &mut Emulator, store: &[u8], window: usize, passes: usize) -> (Status, Vec<u8>) {
    let mut out = Vec::new();
    for _ in 0..passes {
        let offset = emu.fetch_offset() as usize;
        let start = offset.min(store.len());
        let end = (start + window).min(store.len());
        let status = emu.execute_window(&store[start..end], &mut out);
        if status != Status::Running {
            return (status, out);
        }
    }
    (emu.status(), out)
}

fn image_with(values: &[(usize, i16)]) -> [Value; REGISTRY_COUNT] {
    let mut image = standard_image();
    for &(r, v) in values {
        image[r] = v.to_be_bytes();
    }
    image
}

fn run(image: [Value; REGISTRY_COUNT], program: &[Instruction]) -> (Emulator, Status, Vec<u8>) {
    let store = assemble_program(program);
    let mut emu = Emulator::new(image, 64);
    let (status, out) = run_store(&mut emu, &store, WINDOW_BYTES, 1000);
    (emu, status, out)
}

fn reg(emu: &Emulator, r: usize) -> i16 {
    emu.registries().read_i16(r).unwrap()
}

#[test]
fn new_starts_running_at_zero() {
    let emu = Emulator::new(standard_image(), 8);
    assert_eq!(emu.cursor(), 0);
    assert_eq!(emu.fetch_offset(), 0);
    assert_eq!(emu.status(), Status::Running);
    assert_eq!(emu.memory(), &[0u8; 8][..]);
    assert_eq!(reg(&emu, 2), -1);
}

#[test]
fn iadd_wraps_at_the_top() {
    let (emu, status, _) = run(
        image_with(&[(5, 32767), (6, 1)]),
        &[Instruction::IADD(4, 5, 6, 0), Instruction::HALT],
    );
    assert_eq!(status, Status::Halted);
    assert_eq!(reg(&emu, 4), -32768);
}

#[test]
fn iadd_adds_the_immediate() {
    let (emu, _, _) = run(
        image_with(&[(5, 10), (6, 20)]),
        &[Instruction::IADD(4, 5, 6, -3), Instruction::HALT],
    );
    assert_eq!(reg(&emu, 4), 27);
}

#[test]
fn right_operand_is_read_from_its_own_register() {
    let (emu, _, _) = run(
        image_with(&[(5, 100), (6, 7)]),
        &[
            Instruction::ISUB(4, 5, 6, 0),
            Instruction::IMUL(7, 5, 6, 1),
            Instruction::IDIV(8, 5, 6, 1),
            Instruction::HALT,
        ],
    );
    assert_eq!(reg(&emu, 4), 93);
    assert_eq!(reg(&emu, 7), 700);
    assert_eq!(reg(&emu, 8), 14);
}

#[test]
fn isub_and_imul_wrap() {
    let (emu, status, _) = run(
        image_with(&[(5, -32768), (6, 200)]),
        &[Instruction::ISUB(4, 5, 1, 0), Instruction::IMUL(7, 6, 6, 1), Instruction::HALT],
    );
    assert_eq!(status, Status::Halted);
    assert_eq!(reg(&emu, 4), 32767);
    assert_eq!(reg(&emu, 7), -25536);
}

#[test]
fn idiv_chains_and_truncates_toward_zero() {
    let (emu, _, _) = run(
        image_with(&[(5, 100), (6, 7), (7, -7)]),
        &[
            Instruction::IDIV(4, 5, 6, 2),
            Instruction::IDIV(8, 7, 1, 2),
            Instruction::IDIV(9, 5, 7, -1),
            Instruction::HALT,
        ],
    );
    assert_eq!(reg(&emu, 4), 7);
    assert_eq!(reg(&emu, 8), -3);
    assert_eq!(reg(&emu, 9), 14);
}

#[test]
fn idiv_of_minimum_by_minus_one_wraps() {
    let (emu, status, _) = run(
        image_with(&[(5, i16::MIN)]),
        &[Instruction::IDIV(4, 5, 2, 1), Instruction::IDIV(6, 5, 2, 2), Instruction::HALT],
    );
    assert_eq!(status, Status::Halted);
    assert_eq!(reg(&emu, 4), i16::MIN);
    assert_eq!(reg(&emu, 6), -16384);
}

#[test]
fn idiv_by_zero_register_faults() {
    for left in [0i16, 1, -5, i16::MAX] {
        let (emu, status, _) = run(
            image_with(&[(5, left)]),
            &[Instruction::IDIV(4, 5, 0, 3), Instruction::HALT],
        );
        assert_eq!(status, Status::Faulted(EmulatorError::DivisionByZero));
        assert_eq!(emu.status(), Status::Faulted(EmulatorError::DivisionByZero));
        assert_eq!(reg(&emu, 4), 0);
    }
}

#[test]
fn idiv_by_zero_immediate_faults() {
    for left in [0i16, 9, -9] {
        let (_, status, _) = run(
            image_with(&[(5, left), (6, 3)]),
            &[Instruction::IDIV(4, 5, 6, 0), Instruction::HALT],
        );
        assert_eq!(status, Status::Faulted(EmulatorError::DivisionByZero));
    }
}

#[test]
fn idiv_of_zero_left_is_zero() {
    let (emu, status, _) = run(
        image_with(&[(4, 55), (6, 3)]),
        &[Instruction::IDIV(4, 0, 6, 1), Instruction::HALT],
    );
    assert_eq!(status, Status::Halted);
    assert_eq!(reg(&emu, 4), 0);
}

#[test]
fn prints_zero_then_one_and_halts() {
    let (_, status, out) = run(
        standard_image(),
        &[
            Instruction::IADD(4, 0, 0, 0),
            Instruction::IADD(5, 0, 0, 1),
            Instruction::IOUT(4),
            Instruction::IOUT(5),
            Instruction::HALT,
        ],
    );
    assert_eq!(status, Status::Halted);
    assert_eq!(out, b"0\n1\n".to_vec());
}

#[test]
fn end_of_store_without_halt_faults() {
    let store = assemble_program(&[Instruction::IADD(4, 0, 0, 0)]);
    let mut emu = Emulator::new(standard_image(), 0);
    let mut out = Vec::new();
    assert_eq!(emu.execute_window(&store, &mut out), Status::Running);
    assert_eq!(emu.cursor(), 1);
    assert_eq!(emu.fetch_offset(), 4);
    assert_eq!(
        emu.execute_window(&[], &mut out),
        Status::Faulted(EmulatorError::UnexpectedEndOfFile)
    );
    assert!(out.is_empty());
}

#[test]
fn partial_word_is_end_of_store() {
    let mut emu = Emulator::new(standard_image(), 0);
    let mut out = Vec::new();
    assert_eq!(
        emu.execute_window(&[0x10, 0x00, 0x00], &mut out),
        Status::Faulted(EmulatorError::UnexpectedEndOfFile)
    );
}

#[test]
fn fork_taken_moves_cursor_to_target() {
    // r5 = 2, r6 = 2: equal, so jump to value(r7) + 1 = 4.
    let store = assemble_program(&[
        Instruction::FORK(7, 5, 6, 1),
        Instruction::IOUT(1),
        Instruction::HALT,
        Instruction::HALT,
        Instruction::IOUT(2),
        Instruction::HALT,
    ]);
    let mut emu = Emulator::new(image_with(&[(5, 2), (6, 2), (7, 3)]), 0);
    let mut out = Vec::new();
    assert_eq!(emu.execute_window(&store, &mut out), Status::Running);
    assert_eq!(emu.cursor(), 4);
    assert_eq!(emu.fetch_offset(), 16);
    assert!(out.is_empty());
    let (status, out) = run_store(&mut emu, &store, WINDOW_BYTES, 10);
    assert_eq!(status, Status::Halted);
    assert_eq!(out, b"-1\n".to_vec());
}

#[test]
fn fork_not_taken_falls_through() {
    let (emu, status, out) = run(
        image_with(&[(5, 2), (6, -2), (7, 3)]),
        &[
            Instruction::FORK(7, 5, 6, 1),
            Instruction::IOUT(1),
            Instruction::HALT,
            Instruction::HALT,
            Instruction::IOUT(2),
            Instruction::HALT,
        ],
    );
    assert_eq!(status, Status::Halted);
    assert_eq!(out, b"1\n".to_vec());
    assert_eq!(emu.cursor(), 0);
}

#[test]
fn jump_beyond_window_refetches_at_target() {
    let store = assemble_program(&[
        Instruction::JUMP(0, 5),
        Instruction::IOUT(1),
        Instruction::HALT,
        Instruction::NOOP,
        Instruction::NOOP,
        Instruction::IOUT(2),
        Instruction::HALT,
    ]);
    let mut emu = Emulator::new(standard_image(), 0);
    let mut out = Vec::new();
    // A window of two words: the target lies outside it.
    assert_eq!(emu.execute_window(&store[0..8], &mut out), Status::Running);
    assert_eq!(emu.cursor(), 5);
    assert!(out.is_empty());
    let (status, out) = run_store(&mut emu, &store, 8, 10);
    assert_eq!(status, Status::Halted);
    assert_eq!(out, b"-1\n".to_vec());
}

#[test]
fn small_windows_run_like_large_ones() {
    let store = fibonacci_program();
    let mut a = Emulator::new(standard_image(), 0);
    let mut b = Emulator::new(standard_image(), 0);
    let (sa, oa) = run_store(&mut a, &store, 4, 10_000);
    let (sb, ob) = run_store(&mut b, &store, 12, 10_000);
    assert_eq!(sa, Status::Halted);
    assert_eq!(sb, Status::Halted);
    assert_eq!(oa, ob);
}

#[test]
fn fibonacci_program_prints_twenty_numbers() {
    let store = fibonacci_program();
    assert_eq!(store.len(), 44);
    assert_eq!(store[32..36].to_vec(), vec![0x50, 0x87, 0x00, 0x0A]);
    let mut emu = Emulator::new(standard_image(), 0);
    let (status, out) = run_store(&mut emu, &store, WINDOW_BYTES, 10_000);
    assert_eq!(status, Status::Halted);
    let text = String::from_utf8(out).unwrap();
    let numbers: Vec<i32> = text.lines().map(|l| l.parse().unwrap()).collect();
    assert_eq!(numbers.len(), 20);
    assert_eq!(&numbers[..6], &[1, 2, 3, 5, 8, 13]);
    assert_eq!(numbers[19], 10946);
}

#[test]
fn cout_emits_low_byte() {
    let (_, status, out) = run(
        image_with(&[(5, 0x0141), (6, 10)]),
        &[Instruction::COUT(5), Instruction::COUT(6), Instruction::HALT],
    );
    assert_eq!(status, Status::Halted);
    assert_eq!(out, vec![0x41, 10]);
}

#[test]
fn iout_prints_signed_decimal() {
    let (_, _, out) = run(
        image_with(&[(5, i16::MIN), (6, 32767), (7, -40)]),
        &[Instruction::IOUT(5), Instruction::IOUT(6), Instruction::IOUT(7), Instruction::HALT],
    );
    assert_eq!(out, b"-32768\n32767\n-40\n".to_vec());
}

#[test]
fn pool_then_load_round_trips_through_memory() {
    let (emu, status, _) = run(
        image_with(&[(5, -2), (6, 4)]),
        &[Instruction::POOL(5, 6, 2), Instruction::LOAD(7, 6, 2), Instruction::HALT],
    );
    assert_eq!(status, Status::Halted);
    assert_eq!(reg(&emu, 7), -2);
    assert_eq!(&emu.memory()[6..8], &[0xFF, 0xFE]);
    assert_eq!(emu.memory()[5], 0);
    assert_eq!(emu.memory()[8], 0);
}

#[test]
fn load_outside_memory_faults_with_address() {
    let (_, status, _) = run(
        image_with(&[(6, 60)]),
        &[Instruction::LOAD(7, 6, 3), Instruction::HALT],
    );
    assert_eq!(status, Status::Faulted(EmulatorError::OutOfBoundsMemoryAccess(63)));
    let (_, status, _) = run(
        image_with(&[(6, -1)]),
        &[Instruction::LOAD(7, 6, 0xFFFF), Instruction::HALT],
    );
    assert_eq!(status, Status::Faulted(EmulatorError::OutOfBoundsMemoryAccess(131070)));
}

#[test]
fn pool_outside_memory_faults_and_keeps_memory() {
    let (emu, status, _) = run(
        image_with(&[(5, 7), (6, 63)]),
        &[Instruction::POOL(5, 6, 0), Instruction::HALT],
    );
    assert_eq!(status, Status::Faulted(EmulatorError::OutOfBoundsMemoryAccess(63)));
    assert!(emu.memory().iter().all(|&b| b == 0));
    let (emu, status, _) = run(
        image_with(&[(5, 7), (6, 62)]),
        &[Instruction::POOL(5, 6, 0), Instruction::HALT],
    );
    assert_eq!(status, Status::Halted);
    assert_eq!(&emu.memory()[62..64], &[0, 7]);
}

#[test]
fn undefined_opcode_faults() {
    let mut emu = Emulator::new(standard_image(), 0);
    let mut out = Vec::new();
    assert_eq!(
        emu.execute_window(&[0x00, 0, 0, 0, 0xD0, 0, 0, 0, 0x10, 0, 0, 0], &mut out),
        Status::Faulted(EmulatorError::InvalidInstruction(13))
    );
}

#[test]
fn execute_reports_invalid_registry() {
    let mut emu = Emulator::new(standard_image(), 4);
    let mut out = Vec::new();
    assert_eq!(
        emu.execute(Instruction::IOUT(16), &mut out),
        Effect::Fault(EmulatorError::InvalidRegistry(16))
    );
    assert_eq!(
        emu.execute(Instruction::IADD(4, 1, 99, 0), &mut out),
        Effect::Fault(EmulatorError::InvalidRegistry(99))
    );
    assert_eq!(
        emu.execute(Instruction::IADD(20, 1, 1, 0), &mut out),
        Effect::Fault(EmulatorError::InvalidRegistry(20))
    );
    assert_eq!(
        emu.execute(Instruction::FORK(0, 1, 17, 0), &mut out),
        Effect::Fault(EmulatorError::InvalidRegistry(17))
    );
    assert!(out.is_empty());
    assert_eq!(emu.execute(Instruction::JUMP(1, 9), &mut out), Effect::Jump(10));
    assert_eq!(emu.execute(Instruction::HALT, &mut out), Effect::Halt);
    assert_eq!(emu.execute(Instruction::NOOP, &mut out), Effect::Next);
}

#[test]
fn finished_run_stays_finished() {
    let mut emu = Emulator::new(standard_image(), 0);
    let mut out = Vec::new();
    let halt = Instruction::HALT.to_word();
    assert_eq!(emu.execute_window(&halt, &mut out), Status::Halted);
    let print = Instruction::IOUT(1).to_word();
    assert_eq!(emu.execute_window(&print, &mut out), Status::Halted);
    assert_eq!(emu.execute_window(&[], &mut out), Status::Halted);
    assert!(out.is_empty());
    assert_eq!(emu.cursor(), 0);
}

#[test]
fn halt_stops_before_later_words() {
    let (_, status, out) = run(
        standard_image(),
        &[Instruction::HALT, Instruction::IOUT(1)],
    );
    assert_eq!(status, Status::Halted);
    assert!(out.is_empty());
}

#[test]
fn decimal_text_of_extremes() {
    let mut out = Vec::new();
    push_decimal(&mut out, 0);
    push_decimal(&mut out, -32768);
    push_decimal(&mut out, 12345);
    push_decimal(&mut out, -7);
    assert_eq!(out, b"0-3276812345-7".to_vec());
}

#[test]
fn exit_codes_are_distinct_and_nonzero() {
    let errors = [
        EmulatorError::InvalidInstruction(12),
        EmulatorError::InvalidRegistry(16),
        EmulatorError::UnexpectedEndOfFile,
        EmulatorError::DivisionByZero,
        EmulatorError::BackingStoreError,
        EmulatorError::OutOfBoundsMemoryAccess(0),
    ];
    let codes: Vec<i32> = errors.iter().map(|e| e.exit_code()).collect();
    for (i, a) in codes.iter().enumerate() {
        assert_ne!(*a, 0);
        for b in &codes[i + 1..] {
            assert_ne!(a, b);
        }
    }
}

#[test]
fn registry_error_converts_to_invalid_registry() {
    let err = emulator::registries::RegistryBankError { registry: 21 };
    assert_eq!(EmulatorError::from(err), EmulatorError::InvalidRegistry(21));
}
