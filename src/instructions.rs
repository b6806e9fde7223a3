use vstd::prelude::*;

use crate::alu::{pattern, to_signed};
use crate::registries::{signed, wrap, Registry};

verus! {

// The opcode of each instruction: the high nibble of a word's first byte.
pub const NOOP: u8 = 0;
pub const HALT: u8 = 1;
pub const COUT: u8 = 2;
pub const IOUT: u8 = 3;
pub const JUMP: u8 = 4;
pub const FORK: u8 = 5;
pub const LOAD: u8 = 6;
pub const POOL: u8 = 7;
pub const IADD: u8 = 8;
pub const ISUB: u8 = 9;
pub const IMUL: u8 = 10;
pub const IDIV: u8 = 11;

/// Unsigned immediate of the addressing instructions.
pub type AddressImmediate = u16;

/// Signed immediate of the arithmetic instructions.
pub type IntegerImmediate = i16;

/// One decoded instruction word.
///
/// A word is four bytes: the first byte's high nibble is the opcode and its
/// low nibble the first register operand; the second byte holds the second
/// and third register operands (high, then low nibble); the last two bytes
/// are a big-endian immediate.
#[derive(Debug, Clone, Copy, PartialEq, Eq, Structural)]
pub enum Instruction {
    /// Does nothing.
    NOOP,
    /// Ends the run with success.
    HALT,
    /// Emits the low byte of a register as a raw byte.
    COUT(Registry),
    /// Emits a register's signed value as decimal text and a line feed.
    IOUT(Registry),
    /// Continues at word `value(register) + offset`.
    JUMP(Registry, AddressImmediate),
    /// Continues at word `value(address) + offset` when the two compared
    /// registers are equal, else at the next word.
    FORK(Registry, Registry, Registry, AddressImmediate),
    /// `destination = memory[value(base) + offset]`.
    LOAD(Registry, Registry, AddressImmediate),
    /// `memory[value(base) + offset] = value(source)`.
    POOL(Registry, Registry, AddressImmediate),
    /// `destination = left + right + immediate`, wrapping.
    IADD(Registry, Registry, Registry, IntegerImmediate),
    /// `destination = left - right - immediate`, wrapping.
    ISUB(Registry, Registry, Registry, IntegerImmediate),
    /// `destination = left * right * immediate`, wrapping.
    IMUL(Registry, Registry, Registry, IntegerImmediate),
    /// `destination = left / right / immediate`, each quotient truncated
    /// toward zero.
    IDIV(Registry, Registry, Registry, IntegerImmediate),
    /// A word whose opcode names no instruction; holds that opcode.
    ERROR(u8),
}

/// The opcode of a word.
pub open spec fn opcode_of(w: [u8; 4]) -> u8 {
    (w[0] / 16) as u8
}

/// The three register operands of a word.
pub open spec fn first_of(w: [u8; 4]) -> Registry {
    (w[0] % 16) as Registry
}

pub open spec fn second_of(w: [u8; 4]) -> Registry {
    (w[1] / 16) as Registry
}

pub open spec fn third_of(w: [u8; 4]) -> Registry {
    (w[1] % 16) as Registry
}

/// The immediate of a word, unsigned.
pub open spec fn address_of(w: [u8; 4]) -> u16 {
    (w[2] * 256 + w[3]) as u16
}

/// The immediate of a word, signed.
pub open spec fn integer_of(w: [u8; 4]) -> i16 {
    signed(address_of(w)) as i16
}

/// The instruction that a word encodes.
pub open spec fn decode(w: [u8; 4]) -> Instruction {
    let op = opcode_of(w);
    let (a, b, c) = (first_of(w), second_of(w), third_of(w));
    if op == NOOP {
        Instruction::NOOP
    } else if op == HALT {
        Instruction::HALT
    } else if op == COUT {
        Instruction::COUT(a)
    } else if op == IOUT {
        Instruction::IOUT(a)
    } else if op == JUMP {
        Instruction::JUMP(a, address_of(w))
    } else if op == FORK {
        Instruction::FORK(a, b, c, address_of(w))
    } else if op == LOAD {
        Instruction::LOAD(a, b, address_of(w))
    } else if op == POOL {
        Instruction::POOL(a, b, address_of(w))
    } else if op == IADD {
        Instruction::IADD(a, b, c, integer_of(w))
    } else if op == ISUB {
        Instruction::ISUB(a, b, c, integer_of(w))
    } else if op == IMUL {
        Instruction::IMUL(a, b, c, integer_of(w))
    } else if op == IDIV {
        Instruction::IDIV(a, b, c, integer_of(w))
    } else {
        Instruction::ERROR(op)
    }
}

/// The word with the given opcode, register operands and immediate.
pub open spec fn word(op: u8, a: Registry, b: Registry, c: Registry, imm: u16) -> [u8; 4] {
    [(op * 16 + a) as u8, (b * 16 + c) as u8, (imm / 256) as u8, (imm % 256) as u8]
}

/// Whether an instruction can be written as a word: its registers fit in a
/// nibble, and an `ERROR` holds an opcode that names no instruction.
pub open spec fn is_encodable(i: Instruction) -> bool {
    match i {
        Instruction::NOOP | Instruction::HALT => true,
        Instruction::COUT(a) | Instruction::IOUT(a) | Instruction::JUMP(a, _) => a < 16,
        Instruction::LOAD(a, b, _) | Instruction::POOL(a, b, _) => a < 16 && b < 16,
        Instruction::FORK(a, b, c, _) => a < 16 && b < 16 && c < 16,
        Instruction::IADD(a, b, c, _)
        | Instruction::ISUB(a, b, c, _)
        | Instruction::IMUL(a, b, c, _)
        | Instruction::IDIV(a, b, c, _) => a < 16 && b < 16 && c < 16,
        Instruction::ERROR(op) => IDIV < op < 16,
    }
}

/// The word that encodes an instruction; operands that the instruction does
/// not use are zero.
pub open spec fn encode(i: Instruction) -> [u8; 4] {
    match i {
        Instruction::NOOP => word(NOOP, 0, 0, 0, 0),
        Instruction::HALT => word(HALT, 0, 0, 0, 0),
        Instruction::COUT(a) => word(COUT, a, 0, 0, 0),
        Instruction::IOUT(a) => word(IOUT, a, 0, 0, 0),
        Instruction::JUMP(a, imm) => word(JUMP, a, 0, 0, imm),
        Instruction::FORK(a, b, c, imm) => word(FORK, a, b, c, imm),
        Instruction::LOAD(a, b, imm) => word(LOAD, a, b, 0, imm),
        Instruction::POOL(a, b, imm) => word(POOL, a, b, 0, imm),
        Instruction::IADD(a, b, c, imm) => word(IADD, a, b, c, wrap(imm as int)),
        Instruction::ISUB(a, b, c, imm) => word(ISUB, a, b, c, wrap(imm as int)),
        Instruction::IMUL(a, b, c, imm) => word(IMUL, a, b, c, wrap(imm as int)),
        Instruction::IDIV(a, b, c, imm) => word(IDIV, a, b, c, wrap(imm as int)),
        Instruction::ERROR(op) => word(op, 0, 0, 0, 0),
    }
}

proof fn lemma_word_fields(op: u8, a: Registry, b: Registry, c: Registry, imm: u16)
    requires
        op < 16,
        a < 16,
        b < 16,
        c < 16,
    ensures
        opcode_of(word(op, a, b, c, imm)) == op,
        first_of(word(op, a, b, c, imm)) == a,
        second_of(word(op, a, b, c, imm)) == b,
        third_of(word(op, a, b, c, imm)) == c,
        address_of(word(op, a, b, c, imm)) == imm,
{
}

proof fn lemma_signed_wrap(v: i16)
    ensures
        signed(wrap(v as int)) == v,
{
}

/// Encoding then decoding gives back every instruction that a word can hold.
pub proof fn lemma_decode_encode(i: Instruction)
    requires
        is_encodable(i),
    ensures
        decode(encode(i)) == i,
{
    match i {
        Instruction::NOOP => lemma_word_fields(NOOP, 0, 0, 0, 0),
        Instruction::HALT => lemma_word_fields(HALT, 0, 0, 0, 0),
        Instruction::COUT(a) => lemma_word_fields(COUT, a, 0, 0, 0),
        Instruction::IOUT(a) => lemma_word_fields(IOUT, a, 0, 0, 0),
        Instruction::JUMP(a, imm) => lemma_word_fields(JUMP, a, 0, 0, imm),
        Instruction::FORK(a, b, c, imm) => lemma_word_fields(FORK, a, b, c, imm),
        Instruction::LOAD(a, b, imm) => lemma_word_fields(LOAD, a, b, 0, imm),
        Instruction::POOL(a, b, imm) => lemma_word_fields(POOL, a, b, 0, imm),
        Instruction::IADD(a, b, c, imm) => {
            lemma_word_fields(IADD, a, b, c, wrap(imm as int));
            lemma_signed_wrap(imm);
        },
        Instruction::ISUB(a, b, c, imm) => {
            lemma_word_fields(ISUB, a, b, c, wrap(imm as int));
            lemma_signed_wrap(imm);
        },
        Instruction::IMUL(a, b, c, imm) => {
            lemma_word_fields(IMUL, a, b, c, wrap(imm as int));
            lemma_signed_wrap(imm);
        },
        Instruction::IDIV(a, b, c, imm) => {
            lemma_word_fields(IDIV, a, b, c, wrap(imm as int));
            lemma_signed_wrap(imm);
        },
        Instruction::ERROR(op) => lemma_word_fields(op, 0, 0, 0, 0),
    }
}

/// Decoding a word and encoding the instruction again keeps the opcode and
/// every field that the opcode uses: the first register for each defined
/// opcode but `NOOP` and `HALT`; the second for `FORK`, `LOAD`, `POOL` and
/// the arithmetic; the third for `FORK` and the arithmetic; the immediate
/// for `JUMP` to `IDIV`.
pub proof fn lemma_encode_decode(w: [u8; 4])
    ensures
        is_encodable(decode(w)),
        opcode_of(encode(decode(w))) == opcode_of(w),
        HALT < opcode_of(w) <= IDIV ==> first_of(encode(decode(w))) == first_of(w),
        (FORK <= opcode_of(w) <= POOL || IADD <= opcode_of(w) <= IDIV) ==> second_of(
            encode(decode(w)),
        ) == second_of(w),
        (opcode_of(w) == FORK || IADD <= opcode_of(w) <= IDIV) ==> third_of(encode(decode(w)))
            == third_of(w),
        (IOUT < opcode_of(w) <= IDIV) ==> address_of(encode(decode(w))) == address_of(w),
        decode(encode(decode(w))) == decode(w),
{
    let (op, a, b, c, imm) = (opcode_of(w), first_of(w), second_of(w), third_of(w), address_of(w));
    assert(signed(imm) == integer_of(w));
    assert(wrap(integer_of(w) as int) == imm);
    lemma_word_fields(op, a, 0, 0, 0);
    lemma_word_fields(op, a, b, 0, imm);
    lemma_word_fields(op, a, 0, 0, imm);
    lemma_word_fields(op, a, b, c, imm);
    lemma_word_fields(op, 0, 0, 0, 0);
    lemma_decode_encode(decode(w));
}

/// A register operand as it is held in a word.
pub fn to_registry(val: u8) -> (r: Registry)
    requires
        val < 16,
    ensures
        r == val,
{
    val as Registry
}

/// The unsigned immediate held in the last two bytes of a word.
fn address_immediate(w: [u8; 4]) -> (r: AddressImmediate)
    ensures
        r == address_of(w),
{
    (w[2] as u16) * 256 + w[3] as u16
}

/// The signed immediate held in the last two bytes of a word.
fn integer_immediate(w: [u8; 4]) -> (r: IntegerImmediate)
    ensures
        r == integer_of(w),
{
    to_signed(address_immediate(w))
}

impl Instruction {
    /// The word that encodes this instruction.
    pub fn to_word(&self) -> (r: [u8; 4])
        requires
            is_encodable(*self),
        ensures
            r == encode(*self),
    {
        match *self {
            Instruction::NOOP => make_word(NOOP, 0, 0, 0, 0),
            Instruction::HALT => make_word(HALT, 0, 0, 0, 0),
            Instruction::COUT(a) => make_word(COUT, a, 0, 0, 0),
            Instruction::IOUT(a) => make_word(IOUT, a, 0, 0, 0),
            Instruction::JUMP(a, imm) => make_word(JUMP, a, 0, 0, imm),
            Instruction::FORK(a, b, c, imm) => make_word(FORK, a, b, c, imm),
            Instruction::LOAD(a, b, imm) => make_word(LOAD, a, b, 0, imm),
            Instruction::POOL(a, b, imm) => make_word(POOL, a, b, 0, imm),
            Instruction::IADD(a, b, c, imm) => make_word(IADD, a, b, c, pattern(imm)),
            Instruction::ISUB(a, b, c, imm) => make_word(ISUB, a, b, c, pattern(imm)),
            Instruction::IMUL(a, b, c, imm) => make_word(IMUL, a, b, c, pattern(imm)),
            Instruction::IDIV(a, b, c, imm) => make_word(IDIV, a, b, c, pattern(imm)),
            Instruction::ERROR(op) => make_word(op, 0, 0, 0, 0),
        }
    }
}

fn make_word(op: u8, a: Registry, b: Registry, c: Registry, imm: u16) -> (r: [u8; 4])
    requires
        op < 16,
        a < 16,
        b < 16,
        c < 16,
    ensures
        r == word(op, a, b, c, imm),
{
    [op * 16 + a as u8, (b as u8) * 16 + c as u8, (imm / 256) as u8, (imm % 256) as u8]
}

impl From<[u8; 4]> for Instruction {
    /// Decodes one word; every word decodes to some instruction.
    fn from(value: [u8; 4]) -> (r: Instruction)
        ensures
            r == decode(value),
    {
        let op = value[0] >> 4;
        let r1 = value[0] & 0x0F;
        let r2 = value[1] >> 4;
        let r3 = value[1] & 0x0F;
        let (b0, b1) = (value[0], value[1]);
        assert(b0 >> 4 == b0 / 16 && b0 & 0x0F == b0 % 16) by (bit_vector);
        assert(b1 >> 4 == b1 / 16 && b1 & 0x0F == b1 % 16) by (bit_vector);
        let (a, b, c) = (to_registry(r1), to_registry(r2), to_registry(r3));
        match op {
            NOOP => Instruction::NOOP,
            HALT => Instruction::HALT,
            COUT => Instruction::COUT(a),
            IOUT => Instruction::IOUT(a),
            JUMP => Instruction::JUMP(a, address_immediate(value)),
            FORK => Instruction::FORK(a, b, c, address_immediate(value)),
            LOAD => Instruction::LOAD(a, b, address_immediate(value)),
            POOL => Instruction::POOL(a, b, address_immediate(value)),
            IADD => Instruction::IADD(a, b, c, integer_immediate(value)),
            ISUB => Instruction::ISUB(a, b, c, integer_immediate(value)),
            IMUL => Instruction::IMUL(a, b, c, integer_immediate(value)),
            IDIV => Instruction::IDIV(a, b, c, integer_immediate(value)),
            _ => Instruction::ERROR(op),
        }
    }
}

impl vstd::std_specs::convert::FromSpecImpl<[u8; 4]> for Instruction {
    open spec fn obeys_from_spec() -> bool {
        true
    }

    open spec fn from_spec(v: [u8; 4]) -> Instruction {
        decode(v)
    }
}

} // verus!
