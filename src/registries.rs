use vstd::prelude::*;

verus! {

use crate::alu::{pattern, to_signed};

/// Index of one cell of a register bank.
pub type Registry = usize;

/// A register cell: two bytes, the most significant first.
pub type Value = [u8; 2];

/// Number of cells in a register bank.
pub const REGISTRY_COUNT: usize = 16;

/// The 16-bit pattern that a big-endian cell holds.
pub open spec fn value_of(v: Value) -> u16 {
    (v[0] * 256 + v[1]) as u16
}

/// A 16-bit pattern read as a two's-complement number.
pub open spec fn signed(u: u16) -> int {
    if u < 0x8000 {
        u as int
    } else {
        u - 0x10000
    }
}

/// The 16-bit pattern of an integer, modulo 2^16 (two's complement for
/// negative numbers).
pub open spec fn wrap(x: int) -> u16 {
    (x % 0x10000) as u16
}

/// An access named a cell outside the bank.
#[derive(Debug, Clone, Copy, PartialEq, Eq, Structural)]
pub struct RegistryBankError {
    pub registry: Registry,
}

/// A fixed bank of 16-bit cells, addressed by index and read as signed or
/// unsigned numbers.
///
/// No cell is read-only. That registers 0 to 3 hold zero, one, minus one
/// and a pseudo-random value is a convention that the host's initial image
/// (see `standard_image`) and the programs keep; the bank does not enforce
/// it. Register 3 is an ordinary cell that holds what the image or a program
/// put there: a host that wants pseudo-random values seeds it.
#[derive(Debug, Clone, Copy)]
pub struct RegistryBank {
    registries: [Value; REGISTRY_COUNT],
}

impl View for RegistryBank {
    type V = Seq<u16>;

    closed spec fn view(&self) -> Seq<u16> {
        self.registries@.map_values(|v: Value| value_of(v))
    }
}

proof fn lemma_value_of_bytes(v: u16)
    ensures
        value_of([(v / 256) as u8, (v % 256) as u8]) == v,
{
}

impl RegistryBank {
    /// A bank whose cells hold the given big-endian image.
    pub fn new(array: [Value; REGISTRY_COUNT]) -> (r: Self)
        ensures
            r@ == array@.map_values(|v: Value| value_of(v)),
            r@.len() == REGISTRY_COUNT,
    {
        RegistryBank { registries: array }
    }

    /// The unsigned value of a cell.
    pub fn read_u16(&self, registry: Registry) -> (r: Result<u16, RegistryBankError>)
        ensures
            self@.len() == REGISTRY_COUNT,
            registry < REGISTRY_COUNT ==> r == Ok::<u16, RegistryBankError>(self@[registry as int]),
            registry >= REGISTRY_COUNT ==> r == Err::<u16, RegistryBankError>(
                RegistryBankError { registry },
            ),
    {
        if registry >= REGISTRY_COUNT {
            return Err(RegistryBankError { registry });
        }
        let v = self.registries[registry];
        Ok((v[0] as u16) * 256 + v[1] as u16)
    }

    /// The signed (two's-complement) value of a cell.
    pub fn read_i16(&self, registry: Registry) -> (r: Result<i16, RegistryBankError>)
        ensures
            self@.len() == REGISTRY_COUNT,
            registry < REGISTRY_COUNT ==> (r matches Ok(v) && v == signed(self@[registry as int])),
            registry >= REGISTRY_COUNT ==> r == Err::<i16, RegistryBankError>(
                RegistryBankError { registry },
            ),
    {
        match self.read_u16(registry) {
            Ok(u) => Ok(to_signed(u)),
            Err(e) => Err(e),
        }
    }

    /// Stores an unsigned value in a cell.
    pub fn write_u16(&mut self, registry: Registry, value: u16) -> (r: Result<(), RegistryBankError>)
        ensures
            final(self)@.len() == REGISTRY_COUNT,
            registry < REGISTRY_COUNT ==> r is Ok && final(self)@ == old(self)@.update(
                registry as int,
                value,
            ),
            registry >= REGISTRY_COUNT ==> r == Err::<(), RegistryBankError>(
                RegistryBankError { registry },
            ) && final(self)@ == old(self)@,
    {
        if registry >= REGISTRY_COUNT {
            return Err(RegistryBankError { registry });
        }
        let write: Value = [(value / 256) as u8, (value % 256) as u8];
        proof {
            lemma_value_of_bytes(value);
        }
        self.registries[registry] = write;
        assert(self@ =~= old(self)@.update(registry as int, value));
        Ok(())
    }

    /// Stores a signed value in a cell, as its two's-complement pattern.
    pub fn write_i16(&mut self, registry: Registry, value: i16) -> (r: Result<(), RegistryBankError>)
        ensures
            final(self)@.len() == REGISTRY_COUNT,
            registry < REGISTRY_COUNT ==> r is Ok && final(self)@ == old(self)@.update(
                registry as int,
                wrap(value as int),
            ),
            registry >= REGISTRY_COUNT ==> r == Err::<(), RegistryBankError>(
                RegistryBankError { registry },
            ) && final(self)@ == old(self)@,
    {
        self.write_u16(registry, pattern(value))
    }
}

/// The conventional register image: register 0 holds zero, register 1 one,
/// register 2 minus one, register 3 (the pseudo-random seed) and the general
/// registers 4 to 15 zero.
pub fn standard_image() -> (r: [Value; REGISTRY_COUNT])
    ensures
        r@.map_values(|v: Value| value_of(v)) == seq![0u16, 1, 0xFFFF, 0, 0, 0, 0, 0, 0, 0, 0, 0, 0, 0, 0, 0],
{
    let r: [Value; REGISTRY_COUNT] = [
        [0, 0],
        [0, 1],
        [0xFF, 0xFF],
        [0, 0],
        [0, 0],
        [0, 0],
        [0, 0],
        [0, 0],
        [0, 0],
        [0, 0],
        [0, 0],
        [0, 0],
        [0, 0],
        [0, 0],
        [0, 0],
        [0, 0],
    ];
    assert(r@.map_values(|v: Value| value_of(v)) =~= seq![0u16, 1, 0xFFFF, 0, 0, 0, 0, 0, 0, 0, 0, 0, 0, 0, 0, 0]);
    r
}

/// Reading a cell right after writing it gives back the value written, in
/// the width it was written in: `write_u16` then `read_u16` gives the
/// unsigned value, `write_i16` then `read_i16` the signed one.
pub proof fn lemma_write_then_read(bank: Seq<u16>, registry: int, u: u16, v: i16)
    requires
        0 <= registry < bank.len(),
    ensures
        bank.update(registry, u)[registry] == u,
        signed(bank.update(registry, wrap(v as int))[registry]) == v,
{
}

/// Each 16-bit pattern is the pattern of its signed reading, so a value
/// written unsigned and read signed (or the reverse) keeps its bits.
pub proof fn lemma_pattern_round_trip(u: u16)
    ensures
        wrap(signed(u)) == u,
{
}

} // verus!
