//! Fields of fixed layout: little-endian integers, flag sets, and a field
//! that has to hold one given number.

use vstd::prelude::*;

verus! {

/// The number that two bytes spell, low byte first.
pub open spec fn le16(bytes: Seq<u8>) -> u16 {
    (bytes[0] as int + 256 * bytes[1] as int) as u16
}

/// The number that four bytes spell, low byte first.
pub open spec fn le32(bytes: Seq<u8>) -> u32 {
    (bytes[0] as int + 256 * bytes[1] as int + 65536 * bytes[2] as int + 16777216
        * bytes[3] as int) as u32
}

/// Two bytes that spell `v`, low byte first.
pub open spec fn le16_bytes(v: u16) -> Seq<u8> {
    seq![(v % 256) as u8, (v / 256) as u8]
}

/// Four bytes that spell `v`, low byte first.
pub open spec fn le32_bytes(v: u32) -> Seq<u8> {
    seq![
        (v % 256) as u8,
        ((v / 256) % 256) as u8,
        ((v / 65536) % 256) as u8,
        (v / 16777216) as u8,
    ]
}

/// Reads two bytes at `at`, low byte first.
pub fn read_le16(bytes: &[u8], at: usize) -> (out: u16)
    requires
        at + 2 <= bytes@.len(),
    ensures
        out == le16(bytes@.subrange(at as int, at + 2)),
{
    bytes[at] as u16 + 256 * (bytes[at + 1] as u16)
}

/// Reads four bytes at `at`, low byte first.
pub fn read_le32(bytes: &[u8], at: usize) -> (out: u32)
    requires
        at + 4 <= bytes@.len(),
    ensures
        out == le32(bytes@.subrange(at as int, at + 4)),
{
    bytes[at] as u32 + 256 * (bytes[at + 1] as u32) + 65536 * (bytes[at + 2] as u32) + 16777216
        * (bytes[at + 3] as u32)
}

/// Appends `v` as two bytes, low byte first.
pub fn write_le16(out: &mut Vec<u8>, v: u16)
    ensures
        final(out)@ == old(out)@ + le16_bytes(v),
{
    let ghost before = out@;
    out.push((v % 256) as u8);
    out.push((v / 256) as u8);
    assert(out@ =~= before + le16_bytes(v));
}

/// Appends `v` as four bytes, low byte first.
pub fn write_le32(out: &mut Vec<u8>, v: u32)
    ensures
        final(out)@ == old(out)@ + le32_bytes(v),
{
    let ghost before = out@;
    out.push((v % 256) as u8);
    out.push(((v / 256) % 256) as u8);
    out.push(((v / 65536) % 256) as u8);
    out.push((v / 16777216) as u8);
    assert(out@ =~= before + le32_bytes(v));
}

/// What is written is what is read back.
pub proof fn lemma_le_round_trip(a: u16, b: u32)
    ensures
        le16(le16_bytes(a)) == a,
        le32(le32_bytes(b)) == b,
        le16_bytes(a).len() == 2,
        le32_bytes(b).len() == 4,
{
    let b0 = b % 256;
    let b1 = (b / 256) % 256;
    let b2 = (b / 65536) % 256;
    let b3 = b / 16777216;
    assert(b == b0 + 256 * b1 + 65536 * b2 + 16777216 * b3);
}

/// A set of up to sixteen flags, one bit each.
#[derive(Clone, Copy, Debug, PartialEq, Eq, Structural)]
pub struct Flags16 {
    pub bits: u16,
}

impl Flags16 {
    /// The set without flags.
    pub fn empty() -> (out: Self)
        ensures
            out.bits == 0,
    {
        Flags16 { bits: 0 }
    }

    /// The set with the flags of both.
    pub fn union(self, other: Self) -> (out: Self)
        ensures
            out.bits == self.bits | other.bits,
    {
        Flags16 { bits: self.bits | other.bits }
    }

    /// Whether the two sets have a flag in common.
    pub fn contains(self, other: Self) -> (out: bool)
        ensures
            out == (self.bits & other.bits != 0),
    {
        self.bits & other.bits != 0
    }
}

/// A set of up to eight flags, one bit each.
#[derive(Clone, Copy, Debug, PartialEq, Eq, Structural)]
pub struct Flags8 {
    pub bits: u8,
}

impl Flags8 {
    /// The set without flags.
    pub fn empty() -> (out: Self)
        ensures
            out.bits == 0,
    {
        Flags8 { bits: 0 }
    }

    /// The set with the flags of both.
    pub fn union(self, other: Self) -> (out: Self)
        ensures
            out.bits == self.bits | other.bits,
    {
        Flags8 { bits: self.bits | other.bits }
    }

    /// Whether the two sets have a flag in common.
    pub fn contains(self, other: Self) -> (out: bool)
        ensures
            out == (self.bits & other.bits != 0),
    {
        self.bits & other.bits != 0
    }
}

/// Two bytes that are meant to spell the number `V`, low byte first.
#[derive(Clone, Copy, Debug)]
pub struct ConstU16<const V: u16>(pub [u8; 2]);

impl<const V: u16> ConstU16<V> {
    /// The number that the bytes spell.
    pub open spec fn value(&self) -> u16 {
        le16(self.0@)
    }

    /// The field as it has to be.
    pub fn new() -> (out: Self)
        ensures
            out.value() == V,
            out.0@ == le16_bytes(V),
    {
        let bytes: [u8; 2] = [(V % 256) as u8, (V / 256) as u8];
        assert(bytes@ =~= le16_bytes(V));
        ConstU16(bytes)
    }

    /// Whether the bytes spell `V`.
    pub fn valid(&self) -> (out: bool)
        ensures
            out == (self.value() == V),
    {
        self.0[0] as u16 + 256 * (self.0[1] as u16) == V
    }
}

} // verus!
