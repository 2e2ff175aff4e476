//! The thirty-two architectural registers and the file that holds their
//! values.

use enum_map::EnumMap;
use vstd::prelude::*;

verus! {

/// The name of an architectural register.
#[allow(non_camel_case_types)]
#[derive(Clone, Copy, PartialEq, Eq, Structural, Debug, Hash)]
pub enum RegisterType {
    ZERO,
    RA,
    SP,
    GP,
    TP,
    T0,
    T1,
    T2,
    S0,
    S1,
    A0,
    A1,
    A2,
    A3,
    A4,
    A5,
    A6,
    A7,
    S2,
    S3,
    S4,
    S5,
    S6,
    S7,
    S8,
    S9,
    S10,
    S11,
    T3,
    T4,
    T5,
    T6,
}

impl RegisterType {
    /// The number of the register, `0` for `ZERO` up to `31` for `T6`.
    pub open spec fn number(self) -> u8 {
        match self {
            RegisterType::ZERO => 0,
            RegisterType::RA => 1,
            RegisterType::SP => 2,
            RegisterType::GP => 3,
            RegisterType::TP => 4,
            RegisterType::T0 => 5,
            RegisterType::T1 => 6,
            RegisterType::T2 => 7,
            RegisterType::S0 => 8,
            RegisterType::S1 => 9,
            RegisterType::A0 => 10,
            RegisterType::A1 => 11,
            RegisterType::A2 => 12,
            RegisterType::A3 => 13,
            RegisterType::A4 => 14,
            RegisterType::A5 => 15,
            RegisterType::A6 => 16,
            RegisterType::A7 => 17,
            RegisterType::S2 => 18,
            RegisterType::S3 => 19,
            RegisterType::S4 => 20,
            RegisterType::S5 => 21,
            RegisterType::S6 => 22,
            RegisterType::S7 => 23,
            RegisterType::S8 => 24,
            RegisterType::S9 => 25,
            RegisterType::S10 => 26,
            RegisterType::S11 => 27,
            RegisterType::T3 => 28,
            RegisterType::T4 => 29,
            RegisterType::T5 => 30,
            RegisterType::T6 => 31,
        }
    }

    /// Computes the number of the register.
    pub fn index(self) -> (i: u8)
        ensures
            i == self.number(),
            i < 32,
    {
        match self {
            RegisterType::ZERO => 0,
            RegisterType::RA => 1,
            RegisterType::SP => 2,
            RegisterType::GP => 3,
            RegisterType::TP => 4,
            RegisterType::T0 => 5,
            RegisterType::T1 => 6,
            RegisterType::T2 => 7,
            RegisterType::S0 => 8,
            RegisterType::S1 => 9,
            RegisterType::A0 => 10,
            RegisterType::A1 => 11,
            RegisterType::A2 => 12,
            RegisterType::A3 => 13,
            RegisterType::A4 => 14,
            RegisterType::A5 => 15,
            RegisterType::A6 => 16,
            RegisterType::A7 => 17,
            RegisterType::S2 => 18,
            RegisterType::S3 => 19,
            RegisterType::S4 => 20,
            RegisterType::S5 => 21,
            RegisterType::S6 => 22,
            RegisterType::S7 => 23,
            RegisterType::S8 => 24,
            RegisterType::S9 => 25,
            RegisterType::S10 => 26,
            RegisterType::S11 => 27,
            RegisterType::T3 => 28,
            RegisterType::T4 => 29,
            RegisterType::T5 => 30,
            RegisterType::T6 => 31,
        }
    }

    /// Different registers have different numbers.
    pub proof fn lemma_number_injective(a: RegisterType, b: RegisterType)
        ensures
            a.number() == b.number() <==> a == b,
    {
    }
}

/// The values of the registers, kept in an `EnumMap` keyed by register
/// number.
///
/// The map is opaque to the verifier: all that is known of it is
/// [`register_slots`], as the three functions below relate it to the calls
/// made on the map.
#[verifier::external_body]
pub struct RegisterFile {
    slots: EnumMap<u8, i32>,
}

/// The value that the map of `file` holds under each key.
pub uninterp spec fn register_slots(file: RegisterFile) -> Map<u8, i32>;

/// `EnumMap::default`: a map that holds `i32::default()`, that is `0`, under
/// every key.
#[verifier::external_body]
fn slots_new() -> (file: RegisterFile)
    ensures
        register_slots(file) == Map::total(|key: u8| 0i32),
{
    RegisterFile { slots: EnumMap::default() }
}

/// `EnumMap::index`: the value held under `key`. Every `u8` is a key of the
/// map, so the call cannot fail.
#[verifier::external_body]
fn slots_read(file: &RegisterFile, key: u8) -> (value: i32)
    ensures
        value == register_slots(*file)[key],
{
    file.slots[key]
}

/// `EnumMap::index_mut`, assigned through: afterwards the map holds `value`
/// under `key` and what it held before under every other key.
#[verifier::external_body]
fn slots_write(file: &mut RegisterFile, key: u8, value: i32)
    ensures
        register_slots(*final(file)) == register_slots(*old(file)).insert(key, value),
{
    file.slots[key] = value;
}

impl View for RegisterFile {
    type V = Map<RegisterType, i32>;

    /// The value that each register reads as. `ZERO` reads as `0` whatever
    /// the underlying map holds for it.
    open spec fn view(&self) -> Map<RegisterType, i32> {
        Map::total(
            |r: RegisterType|
                if r == RegisterType::ZERO {
                    0i32
                } else {
                    register_slots(*self)[r.number()]
                },
        )
    }
}

impl RegisterFile {
    /// A register file in which every register reads as `0`.
    pub fn new() -> (file: RegisterFile)
        ensures
            file@ == Map::total(|r: RegisterType| 0i32),
    {
        let file = slots_new();
        assert(file@ =~= Map::total(|r: RegisterType| 0i32));
        file
    }

    /// Reads register `r`.
    pub fn get(&self, r: RegisterType) -> (value: i32)
        ensures
            value == self@[r],
            r == RegisterType::ZERO ==> value == 0,
    {
        match r {
            RegisterType::ZERO => 0,
            _ => slots_read(self, r.index()),
        }
    }

    /// Writes `value` to register `r`. A write to `ZERO` is discarded.
    pub fn set(&mut self, r: RegisterType, value: i32)
        ensures
            final(self)@ == written(old(self)@, r, value),
    {
        match r {
            RegisterType::ZERO => {},
            _ => {
                slots_write(self, r.index(), value);
                proof {
                    assert forall|q: RegisterType| q != r implies q.number() != r.number() by {
                        RegisterType::lemma_number_injective(q, r);
                    }
                    assert(self@ =~= old(self)@.insert(r, value));
                }
            },
        }
    }
}

/// The register values after a write of `value` to `r`: unchanged where `r`
/// is `ZERO`, else `value` under `r` and the old value under every other
/// register.
pub open spec fn written(registers: Map<RegisterType, i32>, r: RegisterType, value: i32) -> Map<
    RegisterType,
    i32,
> {
    if r == RegisterType::ZERO {
        registers
    } else {
        registers.insert(r, value)
    }
}

/// `ZERO` reads as `0` in every register file.
pub proof fn lemma_zero_reads_zero(file: RegisterFile)
    ensures
        file@[RegisterType::ZERO] == 0,
        file@.dom().contains(RegisterType::ZERO),
{
}

/// A write never changes what `ZERO` reads as, whichever register it names.
pub proof fn lemma_write_keeps_zero(registers: Map<RegisterType, i32>, r: RegisterType, value: i32)
    ensures
        written(registers, r, value)[RegisterType::ZERO] == registers[RegisterType::ZERO],
{
}

} // verus!
