//! Bit-exact encoding of scalars, 48-bit offsets and bits in a byte sequence.

use vstd::prelude::*;
use vstd::arithmetic::div_mod::{lemma_div_denominator, lemma_fundamental_div_mod};

verus! {

/// Magic of the message header.
pub const ROOTMAGIC: u32 = 0xB5C0C4B3;

/// Magic of a list of fixed-width or pointer-shaped items.
pub const LISTMAGIC: u32 = 0x3400BB46;

/// Magic of a list of tables laid out back to back.
pub const DIRECTLISTMAGIC: u32 = 0xE2C6CC05;

/// Magic of a text object.
pub const TEXTMAGIC: u32 = 0xD812C8F5;

/// Magic of a bytes object.
pub const BYTESMAGIC: u32 = 0xDCDBBE10;

/// Size of an object header: a four-byte magic and a six-byte size.
pub const HEADER_SIZE: usize = 10;

/// `256` to the power `n`.
pub open spec fn pow256(n: nat) -> nat
    decreases n,
{
    if n == 0 {
        1
    } else {
        256 * pow256((n - 1) as nat)
    }
}

/// The unsigned number that `s` holds, least significant byte first.
pub open spec fn le_value(s: Seq<u8>) -> nat
    decreases s.len(),
{
    if s.len() == 0 {
        0
    } else {
        s[0] as nat + 256 * le_value(s.skip(1))
    }
}

/// The `n` low bytes of `v`, least significant first.
pub open spec fn le_bytes(v: nat, n: nat) -> Seq<u8>
    decreases n,
{
    if n == 0 {
        Seq::empty()
    } else {
        seq![(v % 256) as u8] + le_bytes(v / 256, (n - 1) as nat)
    }
}

/// `s` with the bytes from `o` on replaced by `b`.
pub open spec fn splice(s: Seq<u8>, o: int, b: Seq<u8>) -> Seq<u8> {
    s.take(o) + b + s.skip(o + b.len())
}

/// Whether bit `bit` of `byte` is set.
pub open spec fn bit_of(byte: u8, bit: u8) -> bool {
    (byte >> bit) & 1u8 == 1u8
}

/// `byte` with bit `bit` set to `v`.
pub open spec fn with_bit(byte: u8, bit: u8, v: bool) -> u8 {
    if v {
        byte | (1u8 << bit)
    } else {
        byte & !(1u8 << bit)
    }
}

/// Setting a bit changes that bit alone.
pub proof fn lemma_with_bit(byte: u8, bit: u8, v: bool, other: u8)
    requires
        bit < 8,
        other < 8,
    ensures
        bit_of(with_bit(byte, bit, v), bit) == v,
        other != bit ==> bit_of(with_bit(byte, bit, v), other) == bit_of(byte, other),
{
    if v {
        assert(((byte | (1u8 << bit)) >> bit) & 1u8 == 1u8) by (bit_vector)
            requires
                bit < 8,
        ;
        assert(other != bit ==> ((byte | (1u8 << bit)) >> other) & 1u8 == (byte >> other) & 1u8)
            by (bit_vector)
            requires
                bit < 8,
                other < 8,
        ;
    } else {
        assert(((byte & !(1u8 << bit)) >> bit) & 1u8 == 0u8) by (bit_vector)
            requires
                bit < 8,
        ;
        assert(other != bit ==> ((byte & !(1u8 << bit)) >> other) & 1u8 == (byte >> other) & 1u8)
            by (bit_vector)
            requires
                bit < 8,
                other < 8,
        ;
    }
}

/// `byte` with bit `bit` set to `v`.
pub fn set_bit_of(byte: u8, bit: u8, v: bool) -> (r: u8)
    requires
        bit < 8,
    ensures
        r == with_bit(byte, bit, v),
{
    if v {
        byte | (1u8 << bit)
    } else {
        byte & !(1u8 << bit)
    }
}

/// Whether bit `bit` of `byte` is set.
pub fn get_bit_of(byte: u8, bit: u8) -> (r: bool)
    requires
        bit < 8,
    ensures
        r == bit_of(byte, bit),
{
    (byte >> bit) & 1u8 == 1u8
}

pub proof fn lemma_pow256_pos(n: nat)
    ensures
        pow256(n) >= 1,
    decreases n,
{
    if n > 0 {
        lemma_pow256_pos((n - 1) as nat);
    }
}

pub proof fn lemma_pow256_values()
    ensures
        pow256(1) == 0x100,
        pow256(2) == 0x1_0000,
        pow256(4) == 0x1_0000_0000,
        pow256(6) == 0x1_0000_0000_0000,
        pow256(8) == 0x1_0000_0000_0000_0000,
{
    reveal_with_fuel(pow256, 9);
}

pub proof fn lemma_le_bytes_len(v: nat, n: nat)
    ensures
        le_bytes(v, n).len() == n,
    decreases n,
{
    if n > 0 {
        lemma_le_bytes_len(v / 256, (n - 1) as nat);
    }
}

/// Byte `i` of `le_bytes(v, n)` is digit `i` of `v` in base 256.
pub proof fn lemma_le_bytes_index(v: nat, n: nat, i: nat)
    requires
        i < n,
    ensures
        le_bytes(v, n).len() == n,
        le_bytes(v, n)[i as int] == ((v / pow256(i)) % 256) as u8,
    decreases i,
{
    lemma_le_bytes_len(v, n);
    lemma_le_bytes_len(v / 256, (n - 1) as nat);
    let rest = le_bytes(v / 256, (n - 1) as nat);
    assert(le_bytes(v, n) == seq![(v % 256) as u8] + rest);
    if i > 0 {
        lemma_le_bytes_index(v / 256, (n - 1) as nat, (i - 1) as nat);
        lemma_pow256_pos((i - 1) as nat);
        lemma_div_denominator(v as int, 256, pow256((i - 1) as nat) as int);
        assert(le_bytes(v, n)[i as int] == rest[i - 1]);
        assert(pow256(i) == 256 * pow256((i - 1) as nat));
    } else {
        assert(pow256(0) == 1);
    }
}

/// A value below `256^s.len()`.
pub proof fn lemma_le_value_bound(s: Seq<u8>)
    ensures
        le_value(s) < pow256(s.len()),
    decreases s.len(),
{
    if s.len() > 0 {
        lemma_le_value_bound(s.skip(1));
        let r = le_value(s.skip(1));
        let p = pow256((s.len() - 1) as nat);
        assert(s[0] as nat + 256 * r < 256 * p) by (nonlinear_arith)
            requires
                r < p,
                s[0] < 256,
        ;
    }
}

/// Decoding the bytes of `v` gives `v` back, when `v` fits in `n` bytes.
pub proof fn lemma_le_round_trip(v: nat, n: nat)
    requires
        v < pow256(n),
    ensures
        le_value(le_bytes(v, n)) == v,
        le_bytes(v, n).len() == n,
    decreases n,
{
    lemma_le_bytes_len(v, n);
    if n > 0 {
        let p = pow256((n - 1) as nat);
        assert(v / 256 < p) by {
            lemma_fundamental_div_mod(v as int, 256);
        }
        lemma_le_round_trip(v / 256, (n - 1) as nat);
        assert(le_bytes(v, n).skip(1) =~= le_bytes(v / 256, (n - 1) as nat));
        lemma_fundamental_div_mod(v as int, 256);
    }
}

/// One more base-256 digit off `v`.
pub proof fn lemma_div_step(v: nat, i: nat)
    ensures
        v / pow256(i) / 256 == v / pow256(i + 1),
{
    lemma_pow256_pos(i);
    lemma_div_denominator(v as int, pow256(i) as int, 256);
    assert(pow256(i + 1) == 256 * pow256(i));
    assert(pow256(i) * 256 == 256 * pow256(i)) by (nonlinear_arith);
}

/// Splicing bytes within a sequence keeps its length.
pub proof fn lemma_splice_len(s: Seq<u8>, o: int, b: Seq<u8>)
    requires
        0 <= o,
        o + b.len() <= s.len(),
    ensures
        splice(s, o, b).len() == s.len(),
{
}

/// Reads the `n`-byte little-endian number at `o` of `b`.
pub fn read_le(b: &[u8], o: usize, n: usize) -> (r: u64)
    requires
        n <= 8,
        o + n <= b@.len(),
    ensures
        r as nat == le_value(b@.subrange(o as int, o + n)),
{
    let len = b.len();
    let mut r: u64 = 0;
    let mut i: usize = n;
    proof {
        lemma_pow256_values();
        assert(b@.subrange(o + n, o + n) =~= Seq::<u8>::empty());
    }
    while i > 0
        invariant
            i <= n <= 8,
            o + n <= b@.len(),
            b@.len() == len,
            r as nat == le_value(b@.subrange(o + i, o + n)),
            pow256(8) == 0x1_0000_0000_0000_0000,
        decreases i,
    {
        let ghost s = b@.subrange(o + i - 1, o + n);
        proof {
            assert(s.skip(1) =~= b@.subrange(o + i, o + n));
            lemma_le_value_bound(b@.subrange(o + i, o + n));
            lemma_pow256_mono((n - i) as nat, 7);
            assert(le_value(s) < pow256(8)) by {
                lemma_le_value_bound(s);
                lemma_pow256_mono((n - i + 1) as nat, 8);
            }
        }
        r = b[o + i - 1] as u64 + 256 * r;
        i = i - 1;
    }
    r
}

pub proof fn lemma_pow256_mono(a: nat, b: nat)
    requires
        a <= b,
    ensures
        pow256(a) <= pow256(b),
    decreases b,
{
    if a < b {
        lemma_pow256_mono(a, (b - 1) as nat);
        lemma_pow256_pos((b - 1) as nat);
    }
}

/// Writes the `n` low bytes of `v` at `o` of `buf`, least significant first.
pub fn write_le(buf: &mut Vec<u8>, o: usize, n: usize, v: u64)
    requires
        n <= 8,
        o + n <= old(buf)@.len(),
    ensures
        final(buf)@ == splice(old(buf)@, o as int, le_bytes(v as nat, n as nat)),
        final(buf)@.len() == old(buf)@.len(),
{
    let ghost bytes = le_bytes(v as nat, n as nat);
    proof {
        lemma_le_bytes_len(v as nat, n as nat);
        assert(pow256(0) == 1);
    }
    let len = buf.len();
    let mut cur: u64 = v;
    let mut i: usize = 0;
    while i < n
        invariant
            i <= n <= 8,
            o + n <= buf@.len(),
            buf@.len() == old(buf)@.len(),
            len == buf@.len(),
            bytes == le_bytes(v as nat, n as nat),
            bytes.len() == n,
            cur as nat == v as nat / pow256(i as nat),
            forall|j: int| 0 <= j < i ==> #[trigger] buf@[o + j] == bytes[j],
            forall|j: int|
                0 <= j < buf@.len() && !(o <= j < o + i) ==> #[trigger] buf@[j] == old(buf)@[j],
        decreases n - i,
    {
        proof {
            lemma_le_bytes_index(v as nat, n as nat, i as nat);
            lemma_pow256_pos(i as nat);
            lemma_div_denominator(v as int, pow256(i as nat) as int, 256);
        }
        buf.set(o + i, (cur % 256) as u8);
        cur = cur / 256;
        i = i + 1;
    }
    assert forall|j: int| 0 <= j < buf@.len() implies #[trigger] buf@[j] == splice(
        old(buf)@,
        o as int,
        bytes,
    )[j] by {
        if o <= j < o + n {
            assert(buf@[o + (j - o)] == bytes[j - o]);
        }
    }
    assert(buf@ =~= splice(old(buf)@, o as int, bytes));
}

} // verus!
