use vstd::prelude::*;

use crate::emulator::word_at;
use crate::instructions::{decode, encode, is_encodable, lemma_decode_encode, Instruction};

verus! {

/// The bytes of a program: the words of its instructions, one after another.
pub open spec fn assemble(program: Seq<Instruction>) -> Seq<u8>
    decreases program.len(),
{
    if program.len() == 0 {
        seq![]
    } else {
        assemble(program.drop_last()) + encode(program.last())@
    }
}

proof fn lemma_assemble_len(program: Seq<Instruction>)
    ensures
        assemble(program).len() == 4 * program.len(),
    decreases program.len(),
{
    if program.len() > 0 {
        lemma_assemble_len(program.drop_last());
    }
}

proof fn lemma_assemble_word(program: Seq<Instruction>, i: int)
    requires
        0 <= i < program.len(),
    ensures
        word_at(assemble(program), i) == encode(program[i]),
    decreases program.len(),
{
    lemma_assemble_len(program.drop_last());
    if i < program.len() - 1 {
        lemma_assemble_word(program.drop_last(), i);
    }
    let w = word_at(assemble(program), i);
    assert(w =~= encode(program[i]));
}

/// Each word of an assembled program decodes to the instruction it was
/// assembled from.
pub proof fn lemma_assembled_words_decode(program: Seq<Instruction>, i: int)
    requires
        forall|j: int| 0 <= j < program.len() ==> is_encodable(#[trigger] program[j]),
        0 <= i < program.len(),
    ensures
        assemble(program).len() == 4 * program.len(),
        decode(word_at(assemble(program), i)) == program[i],
{
    lemma_assemble_len(program);
    lemma_assemble_word(program, i);
    lemma_decode_encode(program[i]);
}

/// Writes a program as bytes, one word per instruction.
pub fn assemble_program(program: &[Instruction]) -> (r: Vec<u8>)
    requires
        forall|j: int| 0 <= j < program@.len() ==> is_encodable(#[trigger] program@[j]),
    ensures
        r@ == assemble(program@),
{
    let mut r: Vec<u8> = Vec::new();
    let mut i: usize = 0;
    while i < program.len()
        invariant
            i <= program@.len(),
            forall|j: int| 0 <= j < program@.len() ==> is_encodable(#[trigger] program@[j]),
            r@ == assemble(program@.take(i as int)),
        decreases program@.len() - i,
    {
        let word = program[i].to_word();
        r.push(word[0]);
        r.push(word[1]);
        r.push(word[2]);
        r.push(word[3]);
        assert(program@.take(i + 1).drop_last() =~= program@.take(i as int));
        assert(r@ =~= assemble(program@.take(i + 1)));
        i = i + 1;
    }
    assert(program@.take(i as int) =~= program@);
    r
}

/// A program that prints the Fibonacci numbers from 1 on, twenty of them,
/// and halts. It needs register 0 to hold zero.
pub open spec fn fibonacci() -> Seq<Instruction> {
    seq![
        Instruction::IADD(4, 0, 0, 0),
        Instruction::IADD(5, 0, 0, 1),
        Instruction::IADD(6, 4, 5, 0),
        Instruction::IADD(7, 7, 0, 1),
        Instruction::IOUT(6),
        Instruction::IADD(4, 0, 5, 0),
        Instruction::IADD(5, 0, 6, 0),
        Instruction::IADD(8, 0, 0, 20),
        Instruction::FORK(0, 8, 7, 10),
        Instruction::JUMP(0, 2),
        Instruction::HALT,
    ]
}

/// The bytes of the Fibonacci program.
pub fn fibonacci_program() -> (r: Vec<u8>)
    ensures
        r@ == assemble(fibonacci()),
{
    let program = [
        Instruction::IADD(4, 0, 0, 0),
        Instruction::IADD(5, 0, 0, 1),
        Instruction::IADD(6, 4, 5, 0),
        Instruction::IADD(7, 7, 0, 1),
        Instruction::IOUT(6),
        Instruction::IADD(4, 0, 5, 0),
        Instruction::IADD(5, 0, 6, 0),
        Instruction::IADD(8, 0, 0, 20),
        Instruction::FORK(0, 8, 7, 10),
        Instruction::JUMP(0, 2),
        Instruction::HALT,
    ];
    assert(program@ =~= fibonacci());
    assemble_program(program.as_slice())
}

} // verus!
