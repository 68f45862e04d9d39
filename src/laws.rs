//! What holds between writing and reading: every value written reads back as
//! itself, and malformed references are rejected rather than followed.

use vstd::prelude::*;
use crate::arena::{fits48, header};
use crate::codec::{
    bit_of, le_bytes, le_value, lemma_le_bytes_len, lemma_le_round_trip, lemma_pow256_values,
    lemma_with_bit, splice, with_bit, BYTESMAGIC, LISTMAGIC, ROOTMAGIC, TEXTMAGIC,
};
use crate::error::Error;
use crate::list_in::{ListIn, ListRead};
use crate::pod::{enum_byte, enum_of, Enum, Pod};
use crate::reader::{sat_add, Reader, TableIn, UnionIn};
use crate::message::root_ok;
use vstd::utf8::valid_utf8;
use vstd::string::StringSliceAdditionalSpecFns;

verus! {

/// The bytes spliced in at `o` are read back at `o`.
pub proof fn lemma_splice_read(b: Seq<u8>, o: int, x: Seq<u8>)
    requires
        0 <= o,
        o + x.len() <= b.len(),
    ensures
        splice(b, o, x).len() == b.len(),
        splice(b, o, x).subrange(o, o + x.len()) == x,
{
    assert(splice(b, o, x).subrange(o, o + x.len()) =~= x);
}

/// Splicing leaves the bytes outside the spliced range as they were.
pub proof fn lemma_splice_frame(b: Seq<u8>, o: int, x: Seq<u8>, a: int, l: int)
    requires
        0 <= o,
        o + x.len() <= b.len(),
        0 <= a,
        0 <= l,
        a + l <= b.len(),
        a + l <= o || o + x.len() <= a,
    ensures
        splice(b, o, x).subrange(a, a + l) == b.subrange(a, a + l),
{
    assert(splice(b, o, x).subrange(a, a + l) =~= b.subrange(a, a + l));
}

/// A scalar written into a region reads back as itself.
pub proof fn lemma_pod_round_trip<'a, T: Pod>(rd: Reader<'a>, b: Seq<u8>, offset: int, v: T)
    requires
        rd.wf(),
        0 <= offset,
        offset + T::spec_width() <= rd.region_len(),
        b.len() == rd.data().len(),
        rd.data() == splice(b, rd.start() + offset, T::spec_encode(v)),
    ensures
        rd.pod_at::<T>(offset) == Some(v),
{
    T::lemma_round_trip(v);
    lemma_splice_read(b, rd.start() + offset, T::spec_encode(v));
    assert(rd.part().subrange(offset, offset + T::spec_width()) =~= rd.data().subrange(
        rd.start() + offset,
        rd.start() + offset + T::spec_width(),
    ));
}

/// A 48-bit number written into a region reads back as itself.
pub proof fn lemma_u48_round_trip<'a>(rd: Reader<'a>, b: Seq<u8>, offset: int, n: nat)
    requires
        rd.wf(),
        0 <= offset,
        offset + 6 <= rd.region_len(),
        fits48(n as int),
        b.len() == rd.data().len(),
        rd.data() == splice(b, rd.start() + offset, le_bytes(n, 6)),
    ensures
        rd.u48_at(offset) == Some(n),
{
    lemma_pow256_values();
    lemma_le_round_trip(n, 6);
    lemma_splice_read(b, rd.start() + offset, le_bytes(n, 6));
    assert(rd.part().subrange(offset, offset + 6) =~= rd.data().subrange(
        rd.start() + offset,
        rd.start() + offset + 6,
    ));
}

/// A bit written into a byte reads back as itself; the other bits stay.
pub proof fn lemma_bit_round_trip(byte: u8, bit: u8, v: bool, other: u8)
    requires
        bit < 8,
        other < 8,
    ensures
        bit_of(with_bit(byte, bit, v), bit) == v,
        other != bit ==> bit_of(with_bit(byte, bit, v), other) == bit_of(byte, other),
{
    lemma_with_bit(byte, bit, v, other);
}

/// An optional enumerator written as a byte reads back as itself.
pub proof fn lemma_enum_round_trip<T: Enum>(v: Option<T>)
    ensures
        enum_of::<T>(enum_byte(v)) == v,
{
    T::lemma_count_fits();
    if let Some(e) = v {
        T::lemma_round_trip(e);
    }
}

/// A byte at or above the number of enumerators reads as unknown, not as an error.
pub proof fn lemma_enum_tolerance<T: Enum>(v: u8)
    requires
        v as nat >= T::spec_count(),
    ensures
        enum_of::<T>(v) is None,
{
}

/// The magic and size of an object header read back as written.
pub proof fn lemma_header_read(data: Seq<u8>, h: int, magic: u32, size: nat)
    requires
        0 <= h,
        h + 10 <= data.len(),
        data.subrange(h, h + 10) == header(magic, size),
        fits48(size as int),
    ensures
        le_value(data.subrange(h, h + 4)) == magic,
        le_value(data.subrange(h + 4, h + 10)) == size,
{
    lemma_pow256_values();
    lemma_le_round_trip(magic as nat, 4);
    lemma_le_round_trip(size, 6);
    assert(data.subrange(h, h + 4) =~= data.subrange(h, h + 10).subrange(0, 4));
    assert(data.subrange(h + 4, h + 10) =~= data.subrange(h, h + 10).subrange(4, 10));
    assert(header(magic, size).subrange(0, 4) =~= le_bytes(magic as nat, 4));
    assert(header(magic, size).subrange(4, 10) =~= le_bytes(size, 6));
}

/// What a pointer field resolves to when it holds `h` and an object header
/// for `magic` and `size` stands at `h`.
pub proof fn lemma_ptr_resolves<'a>(rd: Reader<'a>, offset: int, h: nat, magic: u32, size: nat)
    requires
        rd.wf(),
        rd.u48_at(offset) == Some(h),
        1 <= h,
        h + 10 <= rd.data().len(),
        rd.data().subrange(h as int, h + 10 as int) == header(magic, size),
        fits48(size as int),
        size <= usize::MAX,
    ensures
        rd.ptr_at(offset) == Ok::<Option<(usize, u32, usize)>, Error>(
            Some(((h + 10) as usize, magic, size as usize)),
        ),
{
    lemma_header_read(rd.data(), h as int, magic, size);
}

/// Text written behind a header and referred to by a pointer field reads
/// back as the same bytes.
pub proof fn lemma_text_round_trip<'a>(
    rd: Reader<'a>,
    offset: int,
    h: nat,
    t: Seq<u8>,
    r: Result<Option<&'a str>, Error>,
)
    requires
        rd.wf(),
        rd.u48_at(offset) == Some(h),
        1 <= h,
        h + 10 + t.len() <= rd.data().len(),
        rd.data().subrange(h as int, h + 10 as int) == header(TEXTMAGIC, t.len()),
        rd.data().subrange(h + 10 as int, h + 10 + t.len() as int) == t,
        fits48(t.len() as int),
        valid_utf8(t),
        rd.text_field(offset, r),
    ensures
        r matches Ok(Some(s)) && s.spec_bytes() == t,
{
    lemma_ptr_resolves(rd, offset, h, TEXTMAGIC, t.len());
}

/// A table written behind its header and referred to by a pointer field
/// reads back over the region of its body.
pub proof fn lemma_table_round_trip<'a, T: TableIn<'a>>(
    rd: Reader<'a>,
    offset: int,
    h: nat,
    size: nat,
    r: Result<Option<T>, Error>,
)
    requires
        rd.wf(),
        rd.u48_at(offset) == Some(h),
        1 <= h,
        h + 10 + size <= rd.data().len(),
        rd.data().subrange(h as int, h + 10 as int) == header(T::spec_magic(), size),
        fits48(size as int),
        rd.table_field(offset, r),
    ensures
        r matches Ok(Some(t)) && t.spec_reader() == rd.at(h + 10 as int, size as int),
        r matches Ok(Some(t)) && t.spec_reader().start() == h + 10,
        r matches Ok(Some(t)) && t.spec_reader().region_len() == size,
{
    lemma_ptr_resolves(rd, offset, h, T::spec_magic(), size);
    rd.lemma_at(h + 10 as int, size as int);
}

/// A list written behind its header and referred to by a pointer field reads
/// back with the count it was written with.
pub proof fn lemma_list_round_trip<'a, A: ListRead<'a>>(
    rd: Reader<'a>,
    offset: int,
    h: nat,
    n: nat,
    r: Result<Option<ListIn<'a, A>>, Error>,
)
    requires
        rd.wf(),
        rd.u48_at(offset) == Some(h),
        1 <= h,
        h + 10 + A::spec_bytes(0, n) <= rd.data().len(),
        rd.data().subrange(h as int, h + 10 as int) == header(LISTMAGIC, n),
        fits48(n as int),
        rd.list_field(offset, r),
        n <= usize::MAX,
    ensures
        r matches Ok(Some(l)) && l.spec_len() == n && l.wf(),
{
    lemma_ptr_resolves(rd, offset, h, LISTMAGIC, n);
}

/// Bytes written behind a header and referred to by a pointer field read
/// back as the same bytes.
pub proof fn lemma_bytes_round_trip<'a>(
    rd: Reader<'a>,
    offset: int,
    h: nat,
    t: Seq<u8>,
    r: Result<Option<&'a [u8]>, Error>,
)
    requires
        rd.wf(),
        rd.u48_at(offset) == Some(h),
        1 <= h,
        h + 10 + t.len() <= rd.data().len(),
        rd.data().subrange(h as int, h + 10 as int) == header(BYTESMAGIC, t.len()),
        rd.data().subrange(h + 10 as int, h + 10 + t.len() as int) == t,
        fits48(t.len() as int),
        rd.blob_field(offset, r),
    ensures
        r matches Ok(Some(b)) && b@ == t,
{
    lemma_ptr_resolves(rd, offset, h, BYTESMAGIC, t.len());
}

/// A union slot written as a discriminant and a pointer to an object reads
/// as what the union type makes of that discriminant and that object.
pub proof fn lemma_union_round_trip<'a, U: UnionIn<'a>>(
    rd: Reader<'a>,
    offset: int,
    t: u16,
    h: nat,
    magic: u32,
    size: nat,
    r: Result<U, Error>,
)
    requires
        rd.wf(),
        rd.pod_at::<u16>(offset) == Some(t),
        rd.u48_at(offset + 2) == Some(h),
        1 <= h,
        h + 10 <= rd.data().len(),
        rd.data().subrange(h as int, h + 10 as int) == header(magic, size),
        fits48(size as int),
        size <= usize::MAX,
        rd.union_field(offset, r),
    ensures
        U::spec_new(t, Some(magic), (h + 10) as usize, size as usize, rd, r),
{
    lemma_ptr_resolves(rd, offset + 2, h, magic, size);
}

/// A pointer to a text object, read as a table of another tag, is rejected
/// with both tags.
pub proof fn lemma_magic_mismatch<'a, T: TableIn<'a>>(
    rd: Reader<'a>,
    offset: int,
    h: nat,
    size: nat,
    r: Result<Option<T>, Error>,
)
    requires
        rd.wf(),
        rd.u48_at(offset) == Some(h),
        1 <= h,
        h + 10 <= rd.data().len(),
        rd.data().subrange(h as int, h + 10 as int) == header(TEXTMAGIC, size),
        fits48(size as int),
        T::spec_magic() != TEXTMAGIC,
        rd.table_field(offset, r),
        size <= usize::MAX,
    ensures
        r == Err::<Option<T>, Error>(Error::BadMagic(TEXTMAGIC, T::spec_magic())),
{
    lemma_ptr_resolves(rd, offset, h, TEXTMAGIC, size);
}

/// A pointer whose header would run past the buffer is rejected.
pub proof fn lemma_truncated_header<'a, T: TableIn<'a>>(
    rd: Reader<'a>,
    offset: int,
    h: nat,
    r: Result<Option<T>, Error>,
)
    requires
        rd.wf(),
        rd.u48_at(offset) == Some(h),
        1 <= h,
        rd.data().len() < h + 10,
        rd.table_field(offset, r),
        h <= usize::MAX,
    ensures
        r == Err::<Option<T>, Error>(
            Error::InvalidPointer(sat_add(h as int, 10), rd.data().len() as usize),
        ),
{
    lemma_pow256_values();
}

/// An object whose size claims more bytes than the buffer holds is rejected.
pub proof fn lemma_truncated_body<'a, T: TableIn<'a>>(
    rd: Reader<'a>,
    offset: int,
    h: nat,
    size: nat,
    r: Result<Option<T>, Error>,
)
    requires
        rd.wf(),
        rd.u48_at(offset) == Some(h),
        1 <= h,
        h + 10 <= rd.data().len() < h + 10 + size,
        rd.data().subrange(h as int, h + 10 as int) == header(T::spec_magic(), size),
        fits48(size as int),
        rd.table_field(offset, r),
        size <= usize::MAX,
    ensures
        r == Err::<Option<T>, Error>(
            Error::InvalidPointer(sat_add(h + 10 as int, size as int), rd.data().len() as usize),
        ),
{
    lemma_ptr_resolves(rd, offset, h, T::spec_magic(), size);
}

/// A field past the end of a region, as in a table written by an older
/// schema, reads as absent: no scalar, no pointer, and no error.
pub proof fn lemma_past_region_absent<'a, T: Pod>(rd: Reader<'a>, offset: int)
    requires
        rd.wf(),
        0 <= offset,
        offset >= rd.region_len(),
    ensures
        rd.u8_at(offset) is None,
        rd.pod_at::<T>(offset) is None,
        rd.u48_usize_at(offset) == Ok::<Option<usize>, Error>(None),
        rd.ptr_at(offset) == Ok::<Option<(usize, u32, usize)>, Error>(None),
{
    T::lemma_round_trip(arbitrary());
}

/// An in-place field that holds `n` refers to `n` bytes right after the
/// region: the place where the writer puts an in-place child.
pub proof fn lemma_inplace_resolves<'a>(rd: Reader<'a>, offset: int, n: nat)
    requires
        rd.wf(),
        rd.u48_at(offset) == Some(n),
        n <= usize::MAX,
    ensures
        rd.ptr_inplace_at(offset) == Ok::<Option<(usize, usize)>, Error>(
            Some(((rd.start() + rd.region_len()) as usize, n as usize)),
        ),
{
    lemma_pow256_values();
    crate::codec::lemma_le_value_bound(rd.part().subrange(offset, offset + 6));
}

/// The bytes of a message whose root table has body `body` and tag `magic`:
/// the message header, then the root table right after it.
pub open spec fn message_of(magic: u32, body: Seq<u8>) -> Seq<u8> {
    splice(
        Seq::new(10, |i: int| 0u8) + header(magic, body.len()) + body,
        0,
        header(ROOTMAGIC, 10),
    )
}

/// A message as the writer leaves it reads back with its root table over
/// the body that was written.
pub proof fn lemma_message_round_trip<'a, T: TableIn<'a>>(body: Seq<u8>, r: Result<T, Error>)
    requires
        fits48(body.len() as int),
        20 + body.len() <= usize::MAX,
        root_ok(message_of(T::spec_magic(), body), r),
    ensures
        r matches Ok(t) && t.spec_reader().data() == message_of(T::spec_magic(), body)
            && t.spec_reader().start() == 20 && t.spec_reader().region_len() == body.len(),
{
    let data = message_of(T::spec_magic(), body);
    let pre = Seq::new(10, |i: int| 0u8) + header(T::spec_magic(), body.len()) + body;
    lemma_le_bytes_len(ROOTMAGIC as nat, 4);
    lemma_le_bytes_len(10, 6);
    lemma_le_bytes_len(T::spec_magic() as nat, 4);
    lemma_le_bytes_len(body.len(), 6);
    lemma_splice_read(pre, 0, header(ROOTMAGIC, 10));
    assert(data.subrange(10, 20) =~= header(T::spec_magic(), body.len()));
    lemma_header_read(data, 0, ROOTMAGIC, 10);
    lemma_header_read(data, 10, T::spec_magic(), body.len());
}

/// The bytes of an arena after an object `obj` was appended to `before` and
/// the pointer field at `p` was pointed to it.
pub open spec fn linked(before: Seq<u8>, obj: Seq<u8>, p: int) -> Seq<u8> {
    splice(before + obj, p, le_bytes(before.len(), 6))
}

proof fn lemma_linked_parts(before: Seq<u8>, obj: Seq<u8>, p: int)
    requires
        0 <= p,
        p + 6 <= before.len(),
    ensures
        linked(before, obj, p).len() == before.len() + obj.len() as int,
        linked(before, obj, p).subrange(
            before.len() as int,
            before.len() + obj.len() as int,
        ) == obj,
{
    lemma_le_bytes_len(before.len(), 6);
    let full = before + obj;
    lemma_splice_frame(full, p, le_bytes(before.len(), 6), before.len() as int, obj.len() as int);
    assert(full.subrange(before.len() as int, before.len() + obj.len() as int) =~= obj);
}

/// Text set through a pointer field of a region reads back through that
/// field as the same text.
pub proof fn lemma_written_text_reads_back<'a>(
    rd: Reader<'a>,
    offset: int,
    before: Seq<u8>,
    v: Seq<u8>,
    r: Result<Option<&'a str>, Error>,
)
    requires
        rd.wf(),
        0 <= offset,
        offset + 6 <= rd.region_len(),
        rd.start() + offset + 6 <= before.len(),
        fits48(before.len() as int),
        fits48(v.len() as int),
        valid_utf8(v),
        rd.data() == linked(
            before,
            header(TEXTMAGIC, v.len()) + v + seq![0u8],
            rd.start() + offset,
        ),
        rd.text_field(offset, r),
    ensures
        r matches Ok(Some(s)) && s.spec_bytes() == v,
{
    let h = before.len();
    let obj = header(TEXTMAGIC, v.len()) + v + seq![0u8];
    lemma_le_bytes_len(TEXTMAGIC as nat, 4);
    lemma_le_bytes_len(v.len(), 6);
    lemma_linked_parts(before, obj, rd.start() + offset);
    lemma_u48_round_trip(rd, before + obj, offset, h);
    let d = rd.data();
    assert(d.subrange(h as int, h + 10 as int) =~= d.subrange(h as int, h + obj.len() as int).subrange(
        0,
        10,
    ));
    assert(obj.subrange(0, 10) =~= header(TEXTMAGIC, v.len()));
    assert(d.subrange(h + 10 as int, h + 10 + v.len() as int) =~= d.subrange(
        h as int,
        h + obj.len() as int,
    ).subrange(10, 10 + v.len() as int));
    assert(obj.subrange(10, 10 + v.len() as int) =~= v);
    lemma_text_round_trip(rd, offset, h, v, r);
}

/// A table set through a pointer field of a region reads back through that
/// field over the body that was written.
pub proof fn lemma_written_table_reads_back<'a, T: TableIn<'a>>(
    rd: Reader<'a>,
    offset: int,
    before: Seq<u8>,
    body: Seq<u8>,
    r: Result<Option<T>, Error>,
)
    requires
        rd.wf(),
        0 <= offset,
        offset + 6 <= rd.region_len(),
        rd.start() + offset + 6 <= before.len(),
        fits48(before.len() as int),
        fits48(body.len() as int),
        rd.data() == linked(before, header(T::spec_magic(), body.len()) + body, rd.start() + offset),
        rd.table_field(offset, r),
    ensures
        r matches Ok(Some(t)) && t.spec_reader() == rd.at(before.len() + 10 as int, body.len() as int),
{
    let h = before.len();
    let obj = header(T::spec_magic(), body.len()) + body;
    lemma_le_bytes_len(T::spec_magic() as nat, 4);
    lemma_le_bytes_len(body.len(), 6);
    lemma_linked_parts(before, obj, rd.start() + offset);
    lemma_u48_round_trip(rd, before + obj, offset, h);
    let d = rd.data();
    assert(d.subrange(h as int, h + 10 as int) =~= d.subrange(h as int, h + obj.len() as int).subrange(
        0,
        10,
    ));
    assert(obj.subrange(0, 10) =~= header(T::spec_magic(), body.len()));
    lemma_table_round_trip(rd, offset, h, body.len(), r);
}

/// A list set through a pointer field of a region reads back through that
/// field with the count it was allocated with.
pub proof fn lemma_written_list_reads_back<'a, A: ListRead<'a>>(
    rd: Reader<'a>,
    offset: int,
    before: Seq<u8>,
    n: nat,
    items: Seq<u8>,
    r: Result<Option<ListIn<'a, A>>, Error>,
)
    requires
        rd.wf(),
        0 <= offset,
        offset + 6 <= rd.region_len(),
        rd.start() + offset + 6 <= before.len(),
        fits48(before.len() as int),
        fits48(n as int),
        n <= usize::MAX,
        items.len() == A::spec_bytes(0, n),
        rd.data() == linked(before, header(LISTMAGIC, n) + items, rd.start() + offset),
        rd.list_field(offset, r),
    ensures
        r matches Ok(Some(l)) && l.spec_len() == n && l.wf(),
{
    let h = before.len();
    let obj = header(LISTMAGIC, n) + items;
    lemma_le_bytes_len(LISTMAGIC as nat, 4);
    lemma_le_bytes_len(n, 6);
    lemma_linked_parts(before, obj, rd.start() + offset);
    lemma_u48_round_trip(rd, before + obj, offset, h);
    let d = rd.data();
    assert(d.subrange(h as int, h + 10 as int) =~= d.subrange(h as int, h + obj.len() as int).subrange(
        0,
        10,
    ));
    assert(obj.subrange(0, 10) =~= header(LISTMAGIC, n));
    lemma_list_round_trip(rd, offset, h, n, r);
}

} // verus!
