use vstd::prelude::*;

use crate::alu::{add3, div3, mul3, quotient, sub3, to_signed};
use crate::decimal::{decimal, push_decimal};
use crate::instructions::{decode, Instruction};
use crate::registries::{
    signed,
    value_of,
    wrap,
    Registry,
    RegistryBank,
    RegistryBankError,
    Value,
    REGISTRY_COUNT,
};

verus! {

/// The line terminator that follows each number that `IOUT` emits.
pub const LINE_FEED: u8 = 10;

/// Bytes in one instruction word.
pub const WORD_BYTES: usize = 4;

/// Size of the window that a host fetches from the program store at a time.
pub const WINDOW_BYTES: usize = 1024;

/// The largest cursor whose byte offset, `cursor * 4`, fits in a `u64`.
pub const MAX_CURSOR: u64 = 0x3FFF_FFFF_FFFF_FFFF;

/// A condition that ends a run with failure.
#[derive(Debug, Clone, Copy, PartialEq, Eq, Structural)]
pub enum EmulatorError {
    /// A word's opcode names no instruction; holds that opcode.
    InvalidInstruction(u8),
    /// An operand named a register outside the bank.
    InvalidRegistry(Registry),
    /// The program store ended before a `HALT` was executed.
    UnexpectedEndOfFile,
    /// A divisor or the immediate of an `IDIV` was zero.
    DivisionByZero,
    /// Reading the program store failed.
    BackingStoreError,
    /// A `LOAD` or `POOL` addressed bytes outside the memory segment; holds
    /// the address.
    OutOfBoundsMemoryAccess(u32),
}

impl From<RegistryBankError> for EmulatorError {
    fn from(err: RegistryBankError) -> (r: Self)
        ensures
            r == EmulatorError::InvalidRegistry(err.registry),
    {
        EmulatorError::InvalidRegistry(err.registry)
    }
}

impl vstd::std_specs::convert::FromSpecImpl<RegistryBankError> for EmulatorError {
    open spec fn obeys_from_spec() -> bool {
        true
    }

    open spec fn from_spec(err: RegistryBankError) -> EmulatorError {
        EmulatorError::InvalidRegistry(err.registry)
    }
}

impl EmulatorError {
    /// The process exit code that reports this error: a distinct nonzero
    /// code for each kind (0 is success).
    pub open spec fn code_of(self) -> i32 {
        match self {
            EmulatorError::InvalidInstruction(_) => 1,
            EmulatorError::InvalidRegistry(_) => 2,
            EmulatorError::UnexpectedEndOfFile => 3,
            EmulatorError::DivisionByZero => 4,
            EmulatorError::BackingStoreError => 5,
            EmulatorError::OutOfBoundsMemoryAccess(_) => 6,
        }
    }

    /// The exit code that reports this error.
    pub fn exit_code(&self) -> (r: i32)
        ensures
            r == self.code_of(),
            r != 0,
    {
        match self {
            EmulatorError::InvalidInstruction(_) => 1,
            EmulatorError::InvalidRegistry(_) => 2,
            EmulatorError::UnexpectedEndOfFile => 3,
            EmulatorError::DivisionByZero => 4,
            EmulatorError::BackingStoreError => 5,
            EmulatorError::OutOfBoundsMemoryAccess(_) => 6,
        }
    }
}

/// Where a run stands: still running, halted (success) or faulted (failure).
/// No transition leaves `Halted` or `Faulted`.
#[derive(Debug, Clone, Copy, PartialEq, Eq, Structural)]
pub enum Status {
    Running,
    Halted,
    Faulted(EmulatorError),
}

/// What executing one instruction asks of the fetch loop.
#[derive(Debug, Clone, Copy, PartialEq, Eq, Structural)]
pub enum Effect {
    /// Go on with the next word.
    Next,
    /// Continue at the given word index.
    Jump(u64),
    /// Stop with success.
    Halt,
    /// Stop with failure.
    Fault(EmulatorError),
}

/// The result of one instruction on registers and memory: the new contents,
/// the bytes emitted, and what comes next.
pub struct Step {
    pub registers: Seq<u16>,
    pub memory: Seq<u8>,
    pub output: Seq<u8>,
    pub effect: Effect,
}

/// An instruction that went on to the next word.
pub open spec fn proceed(registers: Seq<u16>, memory: Seq<u8>, output: Seq<u8>) -> Step {
    Step { registers, memory, output, effect: Effect::Next }
}

/// An instruction that changed nothing and emitted nothing.
pub open spec fn stop(registers: Seq<u16>, memory: Seq<u8>, effect: Effect) -> Step {
    Step { registers, memory, output: seq![], effect }
}

/// The fault for an operand outside the bank.
pub open spec fn invalid(r: Registry) -> Effect {
    Effect::Fault(EmulatorError::InvalidRegistry(r))
}

/// Writes `v` to register `d`, or faults when `d` is outside the bank.
pub open spec fn store(registers: Seq<u16>, memory: Seq<u8>, d: Registry, v: u16) -> Step {
    if d >= registers.len() {
        stop(registers, memory, invalid(d))
    } else {
        proceed(registers.update(d as int, v), memory, seq![])
    }
}

/// Whether the two bytes at `address` lie in the memory segment.
pub open spec fn in_segment(memory: Seq<u8>, address: int) -> bool {
    address + 2 <= memory.len()
}

/// A 16-bit value as it is held in two bytes of memory, big-endian.
pub open spec fn memory_value(memory: Seq<u8>, address: int) -> u16 {
    (memory[address] * 256 + memory[address + 1]) as u16
}

/// Memory after writing `v` big-endian at `address`.
pub open spec fn memory_store(memory: Seq<u8>, address: int, v: u16) -> Seq<u8> {
    memory.update(address, (v / 256) as u8).update(address + 1, (v % 256) as u8)
}

/// What one instruction does, read in the order the operands are used: a
/// register is checked when it is read or written, so the first operand
/// outside the bank is the one reported, and a faulting instruction changes
/// nothing.
#[verifier::opaque]
pub open spec fn step(registers: Seq<u16>, memory: Seq<u8>, instruction: Instruction) -> Step {
    let n = registers.len();
    let fault = |e: Effect| stop(registers, memory, e);
    match instruction {
        Instruction::NOOP => proceed(registers, memory, seq![]),
        Instruction::HALT => stop(registers, memory, Effect::Halt),
        Instruction::COUT(a) => if a >= n {
            fault(invalid(a))
        } else {
            proceed(registers, memory, seq![(registers[a as int] % 256) as u8])
        },
        Instruction::IOUT(a) => if a >= n {
            fault(invalid(a))
        } else {
            proceed(registers, memory, decimal(signed(registers[a as int])).push(LINE_FEED))
        },
        Instruction::JUMP(a, offset) => if a >= n {
            fault(invalid(a))
        } else {
            fault(Effect::Jump((registers[a as int] + offset) as u64))
        },
        Instruction::FORK(a, x, y, offset) => if a >= n {
            fault(invalid(a))
        } else if x >= n {
            fault(invalid(x))
        } else if y >= n {
            fault(invalid(y))
        } else if registers[x as int] == registers[y as int] {
            fault(Effect::Jump((registers[a as int] + offset) as u64))
        } else {
            proceed(registers, memory, seq![])
        },
        Instruction::LOAD(d, b, offset) => if b >= n {
            fault(invalid(b))
        } else {
            let address = registers[b as int] + offset;
            if !in_segment(memory, address) {
                fault(Effect::Fault(EmulatorError::OutOfBoundsMemoryAccess(address as u32)))
            } else {
                store(registers, memory, d, memory_value(memory, address))
            }
        },
        Instruction::POOL(s, b, offset) => if s >= n {
            fault(invalid(s))
        } else if b >= n {
            fault(invalid(b))
        } else {
            let address = registers[b as int] + offset;
            if !in_segment(memory, address) {
                fault(Effect::Fault(EmulatorError::OutOfBoundsMemoryAccess(address as u32)))
            } else {
                proceed(registers, memory_store(memory, address, registers[s as int]), seq![])
            }
        },
        Instruction::IADD(d, l, r, imm) => if l >= n {
            fault(invalid(l))
        } else if r >= n {
            fault(invalid(r))
        } else {
            let (x, y) = (signed(registers[l as int]), signed(registers[r as int]));
            store(registers, memory, d, wrap(x + y + imm))
        },
        Instruction::ISUB(d, l, r, imm) => if l >= n {
            fault(invalid(l))
        } else if r >= n {
            fault(invalid(r))
        } else {
            let (x, y) = (signed(registers[l as int]), signed(registers[r as int]));
            store(registers, memory, d, wrap(x - y - imm))
        },
        Instruction::IMUL(d, l, r, imm) => if l >= n {
            fault(invalid(l))
        } else if r >= n {
            fault(invalid(r))
        } else {
            let (x, y) = (signed(registers[l as int]), signed(registers[r as int]));
            store(registers, memory, d, wrap(x * y * imm))
        },
        Instruction::IDIV(d, l, r, imm) => if l >= n {
            fault(invalid(l))
        } else if r >= n {
            fault(invalid(r))
        } else if registers[r as int] == 0 || imm == 0 {
            fault(Effect::Fault(EmulatorError::DivisionByZero))
        } else {
            let (x, y) = (signed(registers[l as int]), signed(registers[r as int]));
            store(registers, memory, d, wrap(quotient(signed(wrap(quotient(x, y))), imm as int)))
        },
        Instruction::ERROR(op) => fault(Effect::Fault(EmulatorError::InvalidInstruction(op))),
    }
}

/// The state of a run as a mathematical value.
pub struct EmulatorView {
    pub registers: Seq<u16>,
    pub memory: Seq<u8>,
    pub cursor: int,
    pub status: Status,
}

/// A state that a run can be in: a full register bank, and a cursor whose
/// byte offset fits in a `u64`.
pub open spec fn is_valid(s: EmulatorView) -> bool {
    &&& s.registers.len() == REGISTRY_COUNT
    &&& 0 <= s.cursor <= MAX_CURSOR
}

/// Whole instruction words in a window of bytes.
pub open spec fn word_count(window: Seq<u8>) -> int {
    window.len() as int / WORD_BYTES as int
}

/// The `i`-th word of a window.
pub open spec fn word_at(window: Seq<u8>, i: int) -> [u8; 4] {
    [window[4 * i], window[4 * i + 1], window[4 * i + 2], window[4 * i + 3]]
}

/// The state after running out of a window without a jump: the cursor moves
/// past the `n` words executed. A cursor that would pass `MAX_CURSOR` names
/// a byte offset that no store reaches, so the next fetch would find the
/// store's end.
pub open spec fn advance(s: EmulatorView, n: int) -> EmulatorView {
    if s.cursor + n > MAX_CURSOR {
        EmulatorView { status: Status::Faulted(EmulatorError::UnexpectedEndOfFile), ..s }
    } else {
        EmulatorView { cursor: s.cursor + n, ..s }
    }
}

/// Executes the words of a window from the `i`-th on, in order, until one
/// of them jumps, halts or faults, or the window is used up; gives the new
/// state and the bytes emitted.
pub open spec fn run_from(s: EmulatorView, window: Seq<u8>, i: int) -> (EmulatorView, Seq<u8>)
    decreases word_count(window) - i,
{
    if i < 0 || i >= word_count(window) {
        (advance(s, word_count(window)), seq![])
    } else {
        let st = step(s.registers, s.memory, decode(word_at(window, i)));
        let next = EmulatorView { registers: st.registers, memory: st.memory, ..s };
        match st.effect {
            Effect::Next => {
                let (f, o) = run_from(next, window, i + 1);
                (f, st.output + o)
            },
            Effect::Jump(t) => (EmulatorView { cursor: t as int, ..next }, st.output),
            Effect::Halt => (EmulatorView { status: Status::Halted, ..next }, st.output),
            Effect::Fault(e) => (EmulatorView { status: Status::Faulted(e), ..next }, st.output),
        }
    }
}

/// One pass of the fetch loop on a window fetched at the cursor: a run that
/// is over stays as it is; a window without a whole word means that the
/// store has ended; else its words are executed.
pub open spec fn run_window(s: EmulatorView, window: Seq<u8>) -> (EmulatorView, Seq<u8>) {
    if s.status != Status::Running {
        (s, seq![])
    } else if word_count(window) == 0 {
        (EmulatorView { status: Status::Faulted(EmulatorError::UnexpectedEndOfFile), ..s }, seq![])
    } else {
        run_from(s, window, 0)
    }
}

/// The execution core: a register bank, a memory segment for `LOAD` and
/// `POOL`, the cursor (index of the next word to fetch) and the status of
/// the run.
///
/// The program store stays with the host: it fetches a window of bytes at
/// byte offset `fetch_offset()` and hands it to `execute_window`, until the
/// status is no longer `Running`.
pub struct Emulator {
    registries: RegistryBank,
    memory: Vec<u8>,
    cursor: u64,
    status: Status,
}

impl View for Emulator {
    type V = EmulatorView;

    closed spec fn view(&self) -> EmulatorView {
        EmulatorView {
            registers: self.registries@,
            memory: self.memory@,
            cursor: self.cursor as int,
            status: self.status,
        }
    }
}

impl Emulator {
    /// Whether the state is one that a run can be in.
    pub open spec fn wf(&self) -> bool {
        is_valid(self@)
    }

    /// A running machine at cursor 0, with the given register image and a
    /// zeroed memory segment of `memory_size` bytes.
    pub fn new(image: [Value; REGISTRY_COUNT], memory_size: usize) -> (r: Self)
        ensures
            r.wf(),
            r@.registers == image@.map_values(|v: Value| value_of(v)),
            r@.memory == Seq::new(memory_size as nat, |_i: int| 0u8),
            r@.cursor == 0,
            r@.status == Status::Running,
    {
        let mut memory: Vec<u8> = Vec::new();
        let mut i: usize = 0;
        while i < memory_size
            invariant
                i <= memory_size,
                memory@ == Seq::new(i as nat, |_i: int| 0u8),
            decreases memory_size - i,
        {
            memory.push(0);
            i = i + 1;
            assert(memory@ =~= Seq::new(i as nat, |_i: int| 0u8));
        }
        Emulator { registries: RegistryBank::new(image), memory, cursor: 0, status: Status::Running }
    }

    /// Index of the next word to fetch.
    pub fn cursor(&self) -> (r: u64)
        ensures
            r == self@.cursor,
    {
        self.cursor
    }

    /// Byte offset in the program store of the next fetch.
    pub fn fetch_offset(&self) -> (r: u64)
        requires
            self.wf(),
        ensures
            r == self@.cursor * 4,
    {
        self.cursor * 4
    }

    /// Where the run stands.
    pub fn status(&self) -> (r: Status)
        ensures
            r == self@.status,
    {
        self.status
    }

    /// The register bank.
    pub fn registries(&self) -> (r: &RegistryBank)
        ensures
            r@ == self@.registers,
    {
        &self.registries
    }

    /// The memory segment.
    pub fn memory(&self) -> (r: &[u8])
        ensures
            r@ == self@.memory,
    {
        self.memory.as_slice()
    }

    fn read(&self, r: Registry) -> (res: Result<u16, EmulatorError>)
        requires
            self.wf(),
        ensures
            r < REGISTRY_COUNT ==> res == Ok::<u16, EmulatorError>(self@.registers[r as int]),
            r >= REGISTRY_COUNT ==> res == Err::<u16, EmulatorError>(
                EmulatorError::InvalidRegistry(r),
            ),
    {
        match self.registries.read_u16(r) {
            Ok(v) => Ok(v),
            Err(e) => Err(EmulatorError::from(e)),
        }
    }

    fn write(&mut self, d: Registry, v: u16) -> (e: Effect)
        requires
            old(self).wf(),
        ensures
            final(self).wf(),
            ({
                let st = store(old(self)@.registers, old(self)@.memory, d, v);
                &&& final(self)@.registers == st.registers
                &&& e == st.effect
            }),
            final(self)@.memory == old(self)@.memory,
            final(self)@.cursor == old(self)@.cursor,
            final(self)@.status == old(self)@.status,
    {
        match self.registries.write_u16(d, v) {
            Ok(()) => Effect::Next,
            Err(e) => Effect::Fault(EmulatorError::from(e)),
        }
    }

    /// The memory address `value(base) + offset`, if its two bytes lie in
    /// the segment.
    fn address(&self, base: u16, offset: u16) -> (r: Result<usize, EmulatorError>)
        ensures
            in_segment(self@.memory, base + offset) ==> r == Ok::<usize, EmulatorError>(
                (base + offset) as usize,
            ),
            !in_segment(self@.memory, base + offset) ==> r == Err::<usize, EmulatorError>(
                EmulatorError::OutOfBoundsMemoryAccess((base + offset) as u32),
            ),
    {
        let address = base as u32 + offset as u32;
        if address as usize > self.memory.len() || self.memory.len() - (address as usize) < 2 {
            Err(EmulatorError::OutOfBoundsMemoryAccess(address))
        } else {
            Ok(address as usize)
        }
    }

    /// Executes one instruction on the registers and memory, emitting its
    /// output to `out`; the cursor and status are left to the fetch loop.
    pub fn execute(&mut self, instruction: Instruction, out: &mut Vec<u8>) -> (e: Effect)
        requires
            old(self).wf(),
        ensures
            final(self).wf(),
            ({
                let st = step(old(self)@.registers, old(self)@.memory, instruction);
                &&& final(self)@.registers == st.registers
                &&& final(self)@.memory == st.memory
                &&& final(out)@ == old(out)@ + st.output
                &&& e == st.effect
            }),
            e matches Effect::Jump(t) ==> t <= 2 * 0xFFFF,
            final(self)@.cursor == old(self)@.cursor,
            final(self)@.status == old(self)@.status,
    {
        reveal(step);
        match instruction {
            Instruction::NOOP => {
                assert(out@ =~= old(out)@ + seq![]);
                Effect::Next
            },
            Instruction::HALT => {
                assert(out@ =~= old(out)@ + seq![]);
                Effect::Halt
            },
            Instruction::COUT(a) => {
                let v = match self.read(a) {
                    Ok(v) => v,
                    Err(e) => {
                        assert(out@ =~= old(out)@ + seq![]);
                        return Effect::Fault(e);
                    },
                };
                out.push((v % 256) as u8);
                assert(out@ =~= old(out)@ + seq![(v % 256) as u8]);
                Effect::Next
            },
            Instruction::IOUT(a) => {
                let v = match self.read(a) {
                    Ok(v) => v,
                    Err(e) => {
                        assert(out@ =~= old(out)@ + seq![]);
                        return Effect::Fault(e);
                    },
                };
                push_decimal(out, to_signed(v));
                out.push(LINE_FEED);
                assert(out@ =~= old(out)@ + decimal(signed(v)).push(LINE_FEED));
                Effect::Next
            },
            _ => {
                assert(out@ =~= old(out)@ + seq![]);
                self.execute_silent(instruction)
            },
        }
    }

    /// One pass of the fetch loop: executes the words of `window`, the bytes
    /// that the host fetched at `fetch_offset()`, strictly in order.
    ///
    /// A jump sets the cursor and leaves the rest of the window unexecuted,
    /// so that the next fetch starts at the target; a window used up
    /// without a jump moves the cursor past its words. A window without a
    /// whole word means that the store ended before a `HALT`. Once the run
    /// has halted or faulted, nothing changes. Returns the new status.
    pub fn execute_window(&mut self, window: &[u8], out: &mut Vec<u8>) -> (r: Status)
        requires
            old(self).wf(),
        ensures
            final(self).wf(),
            final(self)@ == run_window(old(self)@, window@).0,
            final(out)@ == old(out)@ + run_window(old(self)@, window@).1,
            r == final(self)@.status,
    {
        if self.status != Status::Running {
            assert(out@ =~= old(out)@ + seq![]);
            return self.status;
        }
        let len = window.len();
        let count = len / WORD_BYTES;
        if count == 0 {
            self.status = Status::Faulted(EmulatorError::UnexpectedEndOfFile);
            assert(out@ =~= old(out)@ + seq![]);
            return self.status;
        }
        let ghost goal = run_window(old(self)@, window@);
        assert(goal == run_from(old(self)@, window@, 0));
        let mut i: usize = 0;
        while i < count
            invariant
                self.wf(),
                i <= count,
                len == window@.len(),
                count == word_count(window@),
                self@.status == Status::Running,
                self@.cursor == old(self)@.cursor,
                goal == run_window(old(self)@, window@),
                goal.0 == run_from(self@, window@, i as int).0,
                old(out)@ + goal.1 == out@ + run_from(self@, window@, i as int).1,
            decreases count - i,
        {
            assert(4 * i + 4 <= window@.len()) by (nonlinear_arith)
                requires
                    i < count,
                    count == len as int / 4,
                    len == window@.len(),
            ;
            let at = WORD_BYTES * i;
            let word: [u8; 4] = [window[at], window[at + 1], window[at + 2], window[at + 3]];
            assert(word == word_at(window@, i as int));
            let ghost before = self@;
            let ghost out_before = out@;
            let effect = self.execute(Instruction::from(word), out);
            match effect {
                Effect::Next => {
                    assert(out@ + run_from(self@, window@, i + 1).1 =~= out_before + run_from(
                        before,
                        window@,
                        i as int,
                    ).1);
                    i = i + 1;
                },
                Effect::Jump(target) => {
                    self.cursor = target;
                    return self.status;
                },
                Effect::Halt => {
                    self.status = Status::Halted;
                    return self.status;
                },
                Effect::Fault(e) => {
                    self.status = Status::Faulted(e);
                    return self.status;
                },
            }
        }
        if count as u64 > MAX_CURSOR - self.cursor {
            self.status = Status::Faulted(EmulatorError::UnexpectedEndOfFile);
        } else {
            self.cursor = self.cursor + count as u64;
        }
        assert(out@ + seq![] =~= out@);
        self.status
    }

    /// The instructions that emit nothing.
    fn execute_silent(&mut self, instruction: Instruction) -> (e: Effect)
        requires
            old(self).wf(),
            !(instruction is COUT),
            !(instruction is IOUT),
        ensures
            final(self).wf(),
            ({
                let st = step(old(self)@.registers, old(self)@.memory, instruction);
                &&& final(self)@.registers == st.registers
                &&& final(self)@.memory == st.memory
                &&& st.output == Seq::<u8>::empty()
                &&& e == st.effect
            }),
            e matches Effect::Jump(t) ==> t <= 2 * 0xFFFF,
            final(self)@.cursor == old(self)@.cursor,
            final(self)@.status == old(self)@.status,
    {
        reveal(step);
        match instruction {
            Instruction::JUMP(a, offset) => match self.read(a) {
                Ok(v) => Effect::Jump(v as u64 + offset as u64),
                Err(e) => Effect::Fault(e),
            },
            Instruction::FORK(a, x, y, offset) => {
                let target = match self.read(a) {
                    Ok(v) => v as u64 + offset as u64,
                    Err(e) => return Effect::Fault(e),
                };
                let left = match self.read(x) {
                    Ok(v) => v,
                    Err(e) => return Effect::Fault(e),
                };
                let right = match self.read(y) {
                    Ok(v) => v,
                    Err(e) => return Effect::Fault(e),
                };
                if left == right {
                    Effect::Jump(target)
                } else {
                    Effect::Next
                }
            },
            Instruction::LOAD(d, b, offset) => {
                let base = match self.read(b) {
                    Ok(v) => v,
                    Err(e) => return Effect::Fault(e),
                };
                let address = match self.address(base, offset) {
                    Ok(address) => address,
                    Err(e) => return Effect::Fault(e),
                };
                let v = (self.memory[address] as u16) * 256 + self.memory[address + 1] as u16;
                self.write(d, v)
            },
            Instruction::POOL(s, b, offset) => {
                let v = match self.read(s) {
                    Ok(v) => v,
                    Err(e) => return Effect::Fault(e),
                };
                let base = match self.read(b) {
                    Ok(v) => v,
                    Err(e) => return Effect::Fault(e),
                };
                let address = match self.address(base, offset) {
                    Ok(address) => address,
                    Err(e) => return Effect::Fault(e),
                };
                self.memory.set(address, (v / 256) as u8);
                self.memory.set(address + 1, (v % 256) as u8);
                Effect::Next
            },
            Instruction::IADD(d, l, r, imm)
            | Instruction::ISUB(d, l, r, imm)
            | Instruction::IMUL(d, l, r, imm)
            | Instruction::IDIV(d, l, r, imm) => {
                let x = match self.read(l) {
                    Ok(v) => v,
                    Err(e) => return Effect::Fault(e),
                };
                let y = match self.read(r) {
                    Ok(v) => v,
                    Err(e) => return Effect::Fault(e),
                };
                let v = match instruction {
                    Instruction::IADD(..) => add3(x, y, imm),
                    Instruction::ISUB(..) => sub3(x, y, imm),
                    Instruction::IMUL(..) => mul3(x, y, imm),
                    _ => {
                        if y == 0 || imm == 0 {
                            return Effect::Fault(EmulatorError::DivisionByZero);
                        }
                        div3(x, y, imm)
                    },
                };
                self.write(d, v)
            },
            Instruction::NOOP => Effect::Next,
            Instruction::HALT => Effect::Halt,
            Instruction::ERROR(op) => Effect::Fault(EmulatorError::InvalidInstruction(op)),
            Instruction::COUT(_) | Instruction::IOUT(_) => Effect::Next,
        }
    }
}

/// Addition, subtraction and multiplication never fault on overflow: with
/// operands in the bank they store the result modulo 2^16 and go on.
pub proof fn lemma_arithmetic_wraps(
    registers: Seq<u16>,
    memory: Seq<u8>,
    d: Registry,
    l: Registry,
    r: Registry,
    imm: i16,
)
    requires
        registers.len() == REGISTRY_COUNT,
        d < REGISTRY_COUNT,
        l < REGISTRY_COUNT,
        r < REGISTRY_COUNT,
    ensures
        ({
            let (x, y) = (signed(registers[l as int]), signed(registers[r as int]));
            &&& step(registers, memory, Instruction::IADD(d, l, r, imm)) == proceed(
                registers.update(d as int, wrap(x + y + imm)),
                memory,
                seq![],
            )
            &&& step(registers, memory, Instruction::ISUB(d, l, r, imm)) == proceed(
                registers.update(d as int, wrap(x - y - imm)),
                memory,
                seq![],
            )
            &&& step(registers, memory, Instruction::IMUL(d, l, r, imm)) == proceed(
                registers.update(d as int, wrap(x * y * imm)),
                memory,
                seq![],
            )
        }),
{
    reveal(step);
}

/// Division faults whenever the right operand or the immediate is zero,
/// whatever the left operand, and then changes nothing.
pub proof fn lemma_division_by_zero(
    registers: Seq<u16>,
    memory: Seq<u8>,
    d: Registry,
    l: Registry,
    r: Registry,
    imm: i16,
)
    requires
        registers.len() == REGISTRY_COUNT,
        l < REGISTRY_COUNT,
        r < REGISTRY_COUNT,
        registers[r as int] == 0 || imm == 0,
    ensures
        step(registers, memory, Instruction::IDIV(d, l, r, imm)) == stop(
            registers,
            memory,
            Effect::Fault(EmulatorError::DivisionByZero),
        ),
{
    reveal(step);
}

/// A `FORK` whose compared registers are equal moves the cursor to
/// `value(address) + offset`, where the next fetch starts, and executes
/// nothing more of the window; with unequal registers execution goes on
/// with the next word, as if the `FORK` were not there.
pub proof fn lemma_fork(s: EmulatorView, window: Seq<u8>, i: int)
    requires
        is_valid(s),
        0 <= i < word_count(window),
        decode(word_at(window, i)) is FORK,
    ensures
        decode(word_at(window, i)) matches Instruction::FORK(a, x, y, offset) ==> {
            &&& s.registers[x as int] == s.registers[y as int] ==> run_from(s, window, i) == (
                EmulatorView { cursor: s.registers[a as int] + offset, ..s },
                Seq::<u8>::empty(),
            )
            &&& s.registers[x as int] != s.registers[y as int] ==> run_from(s, window, i)
                == run_from(s, window, i + 1)
        },
{
    reveal(step);
    let w = word_at(window, i);
    assert(decode(w)->FORK_0 < 16 && decode(w)->FORK_1 < 16 && decode(w)->FORK_2 < 16);
    let (f, o) = run_from(s, window, i + 1);
    assert(Seq::<u8>::empty() + o =~= o);
}

/// A `JUMP` moves the cursor to `value(register) + offset` and executes
/// nothing more of the window, wherever the target lies: the next fetch
/// starts at the target.
pub proof fn lemma_jump(s: EmulatorView, window: Seq<u8>, i: int)
    requires
        is_valid(s),
        0 <= i < word_count(window),
        decode(word_at(window, i)) is JUMP,
    ensures
        decode(word_at(window, i)) matches Instruction::JUMP(a, offset) ==> run_from(s, window, i)
            == (EmulatorView { cursor: s.registers[a as int] + offset, ..s }, Seq::<u8>::empty()),
{
    reveal(step);
    let w = word_at(window, i);
    assert(decode(w)->JUMP_0 < 16);
}

} // verus!
