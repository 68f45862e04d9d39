//! Plain scalars stored bit-exactly, least significant byte first.

use vstd::prelude::*;
use crate::codec::{le_bytes, le_value, lemma_le_round_trip, lemma_le_value_bound, lemma_pow256_values, read_le, splice, write_le};

verus! {

/// A scalar whose every bit pattern is a valid value: it is stored as its
/// `width()` bytes, least significant first.
pub trait Pod: Copy + Sized {
    /// Number of bytes a value occupies.
    spec fn spec_width() -> nat;

    /// The value that `spec_width()` bytes hold.
    spec fn spec_decode(b: Seq<u8>) -> Self;

    /// The bytes that hold `v`.
    spec fn spec_encode(v: Self) -> Seq<u8>;

    fn width() -> (r: usize)
        ensures
            r as nat == Self::spec_width(),
            1 <= r <= 8,
    ;

    /// Reads the value stored at `o` of `b`.
    fn decode(b: &[u8], o: usize) -> (r: Self)
        requires
            o + Self::spec_width() <= b@.len(),
        ensures
            r == Self::spec_decode(b@.subrange(o as int, o + Self::spec_width())),
    ;

    /// Stores `v` at `o` of `buf`.
    fn encode(v: Self, buf: &mut Vec<u8>, o: usize)
        requires
            o + Self::spec_width() <= old(buf)@.len(),
        ensures
            final(buf)@ == splice(old(buf)@, o as int, Self::spec_encode(v)),
    ;

    /// Decoding what `encode` stores gives the value back.
    proof fn lemma_round_trip(v: Self)
        ensures
            1 <= Self::spec_width() <= 8,
            Self::spec_encode(v).len() == Self::spec_width(),
            Self::spec_decode(Self::spec_encode(v)) == v,
    ;
}

impl Pod for u8 {
    open spec fn spec_width() -> nat {
        1
    }

    open spec fn spec_decode(b: Seq<u8>) -> u8 {
        le_value(b) as u8
    }

    open spec fn spec_encode(v: u8) -> Seq<u8> {
        le_bytes(v as nat, 1)
    }

    fn width() -> (r: usize) {
        1
    }

    fn decode(b: &[u8], o: usize) -> (r: u8) {
        proof {
            lemma_le_value_bound(b@.subrange(o as int, o + 1));
            lemma_pow256_values();
        }
        read_le(b, o, 1) as u8
    }

    fn encode(v: u8, buf: &mut Vec<u8>, o: usize) {
        write_le(buf, o, 1, v as u64);
    }

    proof fn lemma_round_trip(v: u8) {
        lemma_pow256_values();
        lemma_le_round_trip(v as nat, 1);
    }
}

impl Pod for u16 {
    open spec fn spec_width() -> nat {
        2
    }

    open spec fn spec_decode(b: Seq<u8>) -> u16 {
        le_value(b) as u16
    }

    open spec fn spec_encode(v: u16) -> Seq<u8> {
        le_bytes(v as nat, 2)
    }

    fn width() -> (r: usize) {
        2
    }

    fn decode(b: &[u8], o: usize) -> (r: u16) {
        proof {
            lemma_le_value_bound(b@.subrange(o as int, o + 2));
            lemma_pow256_values();
        }
        read_le(b, o, 2) as u16
    }

    fn encode(v: u16, buf: &mut Vec<u8>, o: usize) {
        write_le(buf, o, 2, v as u64);
    }

    proof fn lemma_round_trip(v: u16) {
        lemma_pow256_values();
        lemma_le_round_trip(v as nat, 2);
    }
}

impl Pod for u32 {
    open spec fn spec_width() -> nat {
        4
    }

    open spec fn spec_decode(b: Seq<u8>) -> u32 {
        le_value(b) as u32
    }

    open spec fn spec_encode(v: u32) -> Seq<u8> {
        le_bytes(v as nat, 4)
    }

    fn width() -> (r: usize) {
        4
    }

    fn decode(b: &[u8], o: usize) -> (r: u32) {
        proof {
            lemma_le_value_bound(b@.subrange(o as int, o + 4));
            lemma_pow256_values();
        }
        read_le(b, o, 4) as u32
    }

    fn encode(v: u32, buf: &mut Vec<u8>, o: usize) {
        write_le(buf, o, 4, v as u64);
    }

    proof fn lemma_round_trip(v: u32) {
        lemma_pow256_values();
        lemma_le_round_trip(v as nat, 4);
    }
}

impl Pod for u64 {
    open spec fn spec_width() -> nat {
        8
    }

    open spec fn spec_decode(b: Seq<u8>) -> u64 {
        le_value(b) as u64
    }

    open spec fn spec_encode(v: u64) -> Seq<u8> {
        le_bytes(v as nat, 8)
    }

    fn width() -> (r: usize) {
        8
    }

    fn decode(b: &[u8], o: usize) -> (r: u64) {
        proof {
            lemma_le_value_bound(b@.subrange(o as int, o + 8));
            lemma_pow256_values();
        }
        read_le(b, o, 8) as u64
    }

    fn encode(v: u64, buf: &mut Vec<u8>, o: usize) {
        write_le(buf, o, 8, v as u64);
    }

    proof fn lemma_round_trip(v: u64) {
        lemma_pow256_values();
        lemma_le_round_trip(v as nat, 8);
    }
}

impl Pod for i8 {
    open spec fn spec_width() -> nat {
        1
    }

    open spec fn spec_decode(b: Seq<u8>) -> i8 {
        (le_value(b) as u8) as i8
    }

    open spec fn spec_encode(v: i8) -> Seq<u8> {
        le_bytes((v as u8) as nat, 1)
    }

    fn width() -> (r: usize) {
        1
    }

    fn decode(b: &[u8], o: usize) -> (r: i8) {
        proof {
            lemma_le_value_bound(b@.subrange(o as int, o + 1));
            lemma_pow256_values();
        }
        (read_le(b, o, 1) as u8) as i8
    }

    fn encode(v: i8, buf: &mut Vec<u8>, o: usize) {
        write_le(buf, o, 1, (v as u8) as u64);
    }

    proof fn lemma_round_trip(v: i8) {
        lemma_pow256_values();
        lemma_le_round_trip((v as u8) as nat, 1);
        assert((v as u8) as i8 == v) by (bit_vector);
    }
}

impl Pod for i16 {
    open spec fn spec_width() -> nat {
        2
    }

    open spec fn spec_decode(b: Seq<u8>) -> i16 {
        (le_value(b) as u16) as i16
    }

    open spec fn spec_encode(v: i16) -> Seq<u8> {
        le_bytes((v as u16) as nat, 2)
    }

    fn width() -> (r: usize) {
        2
    }

    fn decode(b: &[u8], o: usize) -> (r: i16) {
        proof {
            lemma_le_value_bound(b@.subrange(o as int, o + 2));
            lemma_pow256_values();
        }
        (read_le(b, o, 2) as u16) as i16
    }

    fn encode(v: i16, buf: &mut Vec<u8>, o: usize) {
        write_le(buf, o, 2, (v as u16) as u64);
    }

    proof fn lemma_round_trip(v: i16) {
        lemma_pow256_values();
        lemma_le_round_trip((v as u16) as nat, 2);
        assert((v as u16) as i16 == v) by (bit_vector);
    }
}

impl Pod for i32 {
    open spec fn spec_width() -> nat {
        4
    }

    open spec fn spec_decode(b: Seq<u8>) -> i32 {
        (le_value(b) as u32) as i32
    }

    open spec fn spec_encode(v: i32) -> Seq<u8> {
        le_bytes((v as u32) as nat, 4)
    }

    fn width() -> (r: usize) {
        4
    }

    fn decode(b: &[u8], o: usize) -> (r: i32) {
        proof {
            lemma_le_value_bound(b@.subrange(o as int, o + 4));
            lemma_pow256_values();
        }
        (read_le(b, o, 4) as u32) as i32
    }

    fn encode(v: i32, buf: &mut Vec<u8>, o: usize) {
        write_le(buf, o, 4, (v as u32) as u64);
    }

    proof fn lemma_round_trip(v: i32) {
        lemma_pow256_values();
        lemma_le_round_trip((v as u32) as nat, 4);
        assert((v as u32) as i32 == v) by (bit_vector);
    }
}

impl Pod for i64 {
    open spec fn spec_width() -> nat {
        8
    }

    open spec fn spec_decode(b: Seq<u8>) -> i64 {
        (le_value(b) as u64) as i64
    }

    open spec fn spec_encode(v: i64) -> Seq<u8> {
        le_bytes((v as u64) as nat, 8)
    }

    fn width() -> (r: usize) {
        8
    }

    fn decode(b: &[u8], o: usize) -> (r: i64) {
        proof {
            lemma_le_value_bound(b@.subrange(o as int, o + 8));
            lemma_pow256_values();
        }
        (read_le(b, o, 8) as u64) as i64
    }

    fn encode(v: i64, buf: &mut Vec<u8>, o: usize) {
        write_le(buf, o, 8, (v as u64) as u64);
    }

    proof fn lemma_round_trip(v: i64) {
        lemma_pow256_values();
        lemma_le_round_trip((v as u64) as nat, 8);
        assert((v as u64) as i64 == v) by (bit_vector);
    }
}

/// An enumeration stored as one byte; the bytes below `max_value()` are its
/// enumerators, any other byte reads as "unknown".
pub trait Enum: Copy + Sized {
    /// Number of enumerators.
    spec fn spec_count() -> nat;

    /// The enumerator stored as `v`, for `v` below the count.
    spec fn spec_from_u8(v: u8) -> Self;

    /// The byte that stores `e`.
    spec fn spec_to_u8(e: Self) -> u8;

    fn max_value() -> (r: u8)
        ensures
            r as nat == Self::spec_count(),
    ;

    fn from_u8(v: u8) -> (r: Self)
        requires
            (v as nat) < Self::spec_count(),
        ensures
            r == Self::spec_from_u8(v),
    ;

    fn to_u8(self) -> (r: u8)
        ensures
            r == Self::spec_to_u8(self),
    ;

    /// The count is at most `255`, so that `255` stands for none.
    proof fn lemma_count_fits()
        ensures
            Self::spec_count() <= 255,
    ;

    /// Each enumerator is stored below the count and read back as itself.
    proof fn lemma_round_trip(e: Self)
        ensures
            (Self::spec_to_u8(e) as nat) < Self::spec_count(),
            Self::spec_from_u8(Self::spec_to_u8(e)) == e,
    ;
}

/// What the byte `v` reads as, for an enumeration `T`.
pub open spec fn enum_of<T: Enum>(v: u8) -> Option<T> {
    if (v as nat) < T::spec_count() {
        Some(T::spec_from_u8(v))
    } else {
        None
    }
}

/// The byte that stores an optional enumerator: `255` for none.
pub open spec fn enum_byte<T: Enum>(v: Option<T>) -> u8 {
    match v {
        Some(e) => T::spec_to_u8(e),
        None => 255,
    }
}

/// Reads an enumerator: bytes at or above the count are unknown.
pub fn to_enum<T: Enum>(v: u8) -> (r: Option<T>)
    ensures
        r == enum_of::<T>(v),
{
    if v >= T::max_value() {
        None
    } else {
        Some(T::from_u8(v))
    }
}

/// Reads a boolean: any nonzero byte is true.
pub fn to_bool(v: u8) -> (r: bool)
    ensures
        r == (v != 0),
{
    v != 0
}

} // verus!
