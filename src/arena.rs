//! The write side: one growable buffer per outgoing message, and handles
//! that name regions of it by offset.

use vstd::prelude::*;
use crate::codec::{
    le_bytes, lemma_div_step, lemma_le_bytes_index, lemma_le_bytes_len, lemma_splice_len, pow256,
    set_bit_of, splice, with_bit, write_le, BYTESMAGIC, DIRECTLISTMAGIC, HEADER_SIZE, LISTMAGIC,
    ROOTMAGIC, TEXTMAGIC,
};
use crate::message::Table;
use crate::list_out::{
    BoolListWrite, BytesListWrite, EnumListWrite, PodListWrite, StructListWrite, TableListWrite,
    TextListWrite, UnionListWrite,
};
use crate::pod::{enum_byte, Enum, Pod};
use crate::list_out::{DirectTableListWrite, ListOut, ListWrite};
use vstd::string::StringSliceAdditionalSpecFns;

verus! {

/// Every position and size written to a message fits in 48 bits.
pub open spec fn fits48(n: int) -> bool {
    0 <= n < 0x1_0000_0000_0000
}

/// Whether `extra` more bytes can follow `len` bytes of a message.
pub open spec fn room(len: int, extra: int) -> bool {
    fits48(len + extra) && len + extra <= usize::MAX
}

/// The header of an object: its type tag, then its size.
pub open spec fn header(magic: u32, size: nat) -> Seq<u8> {
    le_bytes(magic as nat, 4) + le_bytes(size, 6)
}

/// Where an arena is in writing its one message.
#[derive(Debug, Clone, Copy, PartialEq, Eq, Structural)]
pub enum ArenaState {
    BeforeWriter,
    BeforeRoot,
    AfterRoot,
}

/// The buffer of one outgoing message and its bookkeeping.
pub struct PArena {
    data: Vec<u8>,
    state: ArenaState,
    id: u64,
}

/// Marks how an object is placed: behind a pointer, or in place right after
/// its container.
pub trait Placement {
}

/// Placed in place, right after its container.
pub struct Inplace {}

impl Placement for Inplace {
}

/// Placed anywhere, behind a pointer.
pub struct Normal {}

impl Placement for Normal {
}

/// A table type as the writer sees it: a handle on the region of its body.
pub trait TableOut<P: Placement>: Sized {
    spec fn spec_magic() -> u32;

    spec fn spec_size() -> nat;

    /// The body of a new table: every field at its default.
    spec fn spec_default() -> Seq<u8>;

    /// The region of the table's body.
    spec fn spec_slice(&self) -> ArenaSlice;

    /// The type tag that the table's header carries.
    fn magic() -> (r: u32)
        ensures
            r == Self::spec_magic(),
    ;

    /// The size of the table's body.
    fn size() -> (r: usize)
        ensures
            r as nat == Self::spec_size(),
            fits48(r as int),
    ;

    /// The body of a new table.
    fn default() -> (r: Vec<u8>)
        ensures
            r@ == Self::spec_default(),
            r@.len() == Self::spec_size(),
    ;

    fn new(slice: ArenaSlice) -> (r: Self)
        ensures
            r.spec_slice() == slice,
    ;

    /// Where the table's body starts in the arena.
    fn offset(&self) -> (r: usize)
        ensures
            r == self.spec_slice().spec_offset(),
    ;

    /// The id of the arena the table is written in.
    fn arena(&self) -> (r: u64)
        ensures
            r == self.spec_slice().spec_arena(),
    ;
}

/// A struct type as the writer sees it: a handle on its fixed-size region.
pub trait StructOut: Sized {
    spec fn spec_size() -> nat;

    spec fn spec_slice(&self) -> ArenaSlice;

    fn size() -> (r: usize)
        ensures
            r as nat == Self::spec_size(),
    ;

    fn new(data: ArenaSlice) -> (r: Self)
        ensures
            r.spec_slice() == data,
    ;
}

/// Names the writer's handle of a struct type.
pub trait Struct {
    type Out: StructOut;
}

/// A union type as the writer sees it: handles on its eight-byte slot, a
/// two-byte discriminant and a six-byte payload.
pub trait Union {
    type Out;

    type InplaceOut;

    /// The slot that a handle writes.
    spec fn out_slice(o: &Self::Out) -> ArenaSlice;

    /// The slot that an in-place handle writes, and where its container ends.
    spec fn inplace_slice(o: &Self::InplaceOut) -> (ArenaSlice, usize);

    fn new_out(slice: ArenaSlice) -> (r: Self::Out)
        ensures
            Self::out_slice(&r) == slice,
    ;

    fn new_inplace_out(slice: ArenaSlice, container_end: usize) -> (r: Self::InplaceOut)
        ensures
            Self::inplace_slice(&r) == (slice, container_end),
    ;
}

/// A region of an arena: the arena's id, where the region starts, and its length.
#[derive(Clone, Copy)]
pub struct ArenaSlice {
    arena: u64,
    offset: usize,
    length: usize,
}

/// A text object written to an arena.
#[derive(Clone, Copy)]
pub struct TextOut {
    slice: ArenaSlice,
}

/// A bytes object written to an arena.
#[derive(Clone, Copy)]
pub struct BytesOut {
    slice: ArenaSlice,
}

impl PArena {
    /// The bytes written so far.
    pub closed spec fn bytes(&self) -> Seq<u8> {
        self.data@
    }

    pub closed spec fn spec_state(&self) -> ArenaState {
        self.state
    }

    /// Tells handles of this arena from those of another.
    pub closed spec fn spec_id(&self) -> u64 {
        self.id
    }

    pub open spec fn wf(&self) -> bool {
        room(self.bytes().len() as int, 0)
    }

    /// The arena after more bytes were written: same id and state, no shorter.
    pub open spec fn grown_from(&self, old: PArena) -> bool {
        &&& self.spec_id() == old.spec_id()
        &&& self.spec_state() == old.spec_state()
        &&& self.bytes().len() >= old.bytes().len()
        &&& self.wf()
    }

    /// The arena after bytes were overwritten in place: same id, state and length.
    pub open spec fn rewritten(&self, old: PArena) -> bool {
        &&& self.spec_id() == old.spec_id()
        &&& self.spec_state() == old.spec_state()
        &&& self.bytes().len() == old.bytes().len()
    }

    /// The bytes written so far.
    pub fn as_slice(&self) -> (r: &[u8])
        ensures
            r@ == self.bytes(),
    {
        self.data.as_slice()
    }

    /// Appends `b`.
    fn append(&mut self, b: &[u8])
        requires
            room(old(self).bytes().len() as int, b@.len() as int),
        ensures
            final(self).bytes() == old(self).bytes() + b@,
            final(self).spec_id() == old(self).spec_id(),
            final(self).spec_state() == old(self).spec_state(),
    {
        let mut i: usize = 0;
        while i < b.len()
            invariant
                i <= b@.len(),
                self.data@ == old(self).data@ + b@.take(i as int),
                self.id == old(self).id,
                self.state == old(self).state,
            decreases b@.len() - i,
        {
            self.data.push(b[i]);
            i = i + 1;
            assert(self.data@ =~= old(self).data@ + b@.take(i as int));
        }
        assert(b@.take(b@.len() as int) =~= b@);
    }

    /// Appends the `n` low bytes of `v`, least significant first.
    fn append_le(&mut self, v: u64, n: usize)
        requires
            n <= 8,
            room(old(self).bytes().len() as int, n as int),
        ensures
            final(self).bytes() == old(self).bytes() + le_bytes(v as nat, n as nat),
            final(self).spec_id() == old(self).spec_id(),
            final(self).spec_state() == old(self).spec_state(),
    {
        let ghost bytes = le_bytes(v as nat, n as nat);
        proof {
            lemma_le_bytes_len(v as nat, n as nat);
            assert(pow256(0) == 1);
        }
        let mut cur: u64 = v;
        let mut i: usize = 0;
        while i < n
            invariant
                i <= n <= 8,
                bytes == le_bytes(v as nat, n as nat),
                bytes.len() == n,
                self.data@ == old(self).data@ + bytes.take(i as int),
                cur as nat == v as nat / pow256(i as nat),
                self.id == old(self).id,
                self.state == old(self).state,
            decreases n - i,
        {
            proof {
                lemma_le_bytes_index(v as nat, n as nat, i as nat);
                lemma_div_step(v as nat, i as nat);
            }
            self.data.push((cur % 256) as u8);
            cur = cur / 256;
            i = i + 1;
            assert(self.data@ =~= old(self).data@ + bytes.take(i as int));
        }
        assert(bytes.take(n as int) =~= bytes);
    }

    /// Appends `size` bytes of `fill`.
    fn append_fill(&mut self, size: usize, fill: u8)
        requires
            room(old(self).bytes().len() as int, size as int),
        ensures
            final(self).bytes() == old(self).bytes() + Seq::new(size as nat, |i: int| fill),
            final(self).spec_id() == old(self).spec_id(),
            final(self).spec_state() == old(self).spec_state(),
    {
        let mut i: usize = 0;
        while i < size
            invariant
                i <= size,
                self.data@ == old(self).data@ + Seq::new(i as nat, |j: int| fill),
                self.id == old(self).id,
                self.state == old(self).state,
            decreases size - i,
        {
            self.data.push(fill);
            i = i + 1;
            assert(self.data@ =~= old(self).data@ + Seq::new(i as nat, |j: int| fill));
        }
    }

    /// Appends `size` bytes of `fill` and returns their region.
    pub fn allocate(&mut self, size: usize, fill: u8) -> (r: ArenaSlice)
        requires
            room(old(self).bytes().len() as int, size as int),
        ensures
            final(self).bytes() == old(self).bytes() + Seq::new(size as nat, |i: int| fill),
            final(self).grown_from(*old(self)),
            r.spec_arena() == old(self).spec_id(),
            r.spec_offset() == old(self).bytes().len(),
            r.spec_length() == size,
    {
        let offset = self.data.len();
        self.append_fill(size, fill);
        ArenaSlice { arena: self.id, offset, length: size }
    }

    /// Appends `head` zero bytes, then `default`, and returns their region.
    pub fn allocate_default(&mut self, head: usize, default: &[u8]) -> (r: ArenaSlice)
        requires
            room(old(self).bytes().len() as int, head + default@.len() as int),
        ensures
            final(self).bytes() == old(self).bytes() + Seq::new(head as nat, |i: int| 0u8)
                + default@,
            final(self).grown_from(*old(self)),
            r.spec_arena() == old(self).spec_id(),
            r.spec_offset() == old(self).bytes().len(),
            r.spec_length() == head + default@.len(),
    {
        let offset = self.data.len();
        self.append_fill(head, 0);
        self.append(default);
        ArenaSlice { arena: self.id, offset, length: head + default.len() }
    }

    /// Appends an object header for `magic` and `size`, and returns where
    /// the body starts.
    fn append_header(&mut self, magic: u32, size: u64) -> (r: usize)
        requires
            room(old(self).bytes().len() as int, 10),
            fits48(size as int),
        ensures
            final(self).bytes() == old(self).bytes() + header(magic, size as nat),
            final(self).bytes().len() == old(self).bytes().len() + 10,
            final(self).grown_from(*old(self)),
            r == final(self).bytes().len(),
    {
        proof {
            lemma_le_bytes_len(magic as nat, 4);
            lemma_le_bytes_len(size as nat, 6);
        }
        self.append_le(magic as u64, 4);
        self.append_le(size, 6);
        assert(self.bytes() =~= old(self).bytes() + header(magic, size as nat));
        self.data.len()
    }

    /// Writes a table with every field at its default.
    pub fn create_table<T: TableOut<Normal>>(&mut self) -> (r: T)
        requires
            room(old(self).bytes().len() as int, 10 + T::spec_size() as int),
        ensures
            final(self).bytes() == old(self).bytes() + header(T::spec_magic(), T::spec_size())
                + T::spec_default(),
            final(self).grown_from(*old(self)),
            r.spec_slice().spec_arena() == old(self).spec_id(),
            r.spec_slice().spec_offset() == old(self).bytes().len() + 10,
            r.spec_slice().spec_length() == T::spec_size(),
            final(self).bytes().len() == old(self).bytes().len() + 10 + T::spec_size(),
    {
        let d = T::default();
        let size = T::size();
        proof {
            lemma_le_bytes_len(T::spec_magic() as nat, 4);
            lemma_le_bytes_len(size as nat, 6);
        }
        let offset = self.append_header(T::magic(), size as u64);
        self.append(d.as_slice());
        T::new(ArenaSlice { arena: self.id, offset, length: size })
    }

    /// Writes a list of `len` items, each filled with the item kind's
    /// default byte.
    pub fn create_list<T: ListWrite>(&mut self, len: usize) -> (r: ListOut<T, Normal>)
        requires
            room(old(self).bytes().len() as int, 10 + T::spec_list_bytes(len as nat) as int),
            fits48(len as int),
        ensures
            final(self).bytes() == old(self).bytes() + header(LISTMAGIC, len as nat) + Seq::new(
                T::spec_list_bytes(len as nat),
                |i: int| T::spec_list_def(),
            ),
            final(self).bytes().len() == old(self).bytes().len() + 10 + T::spec_list_bytes(
                len as nat,
            ),
            final(self).grown_from(*old(self)),
            r.spec_slice().spec_arena() == old(self).spec_id(),
            r.spec_slice().spec_offset() == old(self).bytes().len() + 10,
            r.spec_len() == len,
            r.wf(),
    {
        let bytes = T::list_bytes(len);
        let offset = self.append_header(LISTMAGIC, len as u64);
        self.append_fill(bytes, T::list_def());
        ListOut::from_slice(ArenaSlice { arena: self.id, offset, length: bytes }, len)
    }

    /// Writes a list of `len` tables laid out back to back, zero-filled,
    /// after a header that carries the tables' tag and size.
    pub fn create_direct_table_list<T: TableOut<Normal>>(&mut self, len: usize) -> (r: ListOut<
        DirectTableListWrite<T>,
        Normal,
    >)
        requires
            room(old(self).bytes().len() as int, 18 + len * T::spec_size()),
            fits48(len as int),
            T::spec_size() <= u32::MAX,
        ensures
            final(self).bytes() == old(self).bytes() + header(DIRECTLISTMAGIC, len as nat)
                + le_bytes(T::spec_magic() as nat, 4) + le_bytes(T::spec_size(), 4) + Seq::new(
                (len * T::spec_size()) as nat,
                |i: int| 0u8,
            ),
            final(self).bytes().len() == old(self).bytes().len() + 18 + len * T::spec_size(),
            final(self).grown_from(*old(self)),
            r.spec_slice().spec_arena() == old(self).spec_id(),
            r.spec_slice().spec_offset() == old(self).bytes().len() + 18,
            r.spec_len() == len,
            r.wf(),
    {
        let bytes = DirectTableListWrite::<T>::list_bytes(len);
        self.append_header(DIRECTLISTMAGIC, len as u64);
        proof {
            lemma_le_bytes_len(T::spec_magic() as nat, 4);
            lemma_le_bytes_len(T::spec_size(), 4);
        }
        self.append_le(T::magic() as u64, 4);
        self.append_le(T::size() as u64, 4);
        let offset = self.data.len();
        self.append_fill(bytes, 0);
        ListOut::from_slice(ArenaSlice { arena: self.id, offset, length: bytes }, len)
    }

    /// Writes a bytes object holding `v`.
    pub fn create_bytes(&mut self, v: &[u8]) -> (r: BytesOut)
        requires
            room(old(self).bytes().len() as int, 10 + v@.len() as int),
        ensures
            final(self).bytes() == old(self).bytes() + header(BYTESMAGIC, v@.len()) + v@,
            final(self).grown_from(*old(self)),
            r.slice().spec_arena() == old(self).spec_id(),
            r.slice().spec_offset() == old(self).bytes().len(),
            r.slice().spec_length() == 10 + v@.len(),
            final(self).bytes().len() == old(self).bytes().len() + 10 + v@.len(),
    {
        let offset = self.data.len();
        self.append_header(BYTESMAGIC, v.len() as u64);
        proof {
            lemma_le_bytes_len(BYTESMAGIC as nat, 4);
            lemma_le_bytes_len(v@.len(), 6);
        }
        self.append(v);
        BytesOut { slice: ArenaSlice { arena: self.id, offset, length: v.len() + HEADER_SIZE } }
    }

    /// Writes a text object holding `v`, followed by a zero byte.
    pub fn create_text(&mut self, v: &str) -> (r: TextOut)
        requires
            room(old(self).bytes().len() as int, 11 + v.spec_bytes().len() as int),
        ensures
            final(self).bytes() == old(self).bytes() + header(TEXTMAGIC, v.spec_bytes().len())
                + v.spec_bytes() + seq![0u8],
            final(self).grown_from(*old(self)),
            r.slice().spec_arena() == old(self).spec_id(),
            r.slice().spec_offset() == old(self).bytes().len(),
            r.slice().spec_length() == 11 + v.spec_bytes().len(),
            final(self).bytes().len() == old(self).bytes().len() + 11 + v.spec_bytes().len(),
    {
        let b = v.as_bytes();
        let offset = self.data.len();
        self.append_header(TEXTMAGIC, b.len() as u64);
        proof {
            lemma_le_bytes_len(TEXTMAGIC as nat, 4);
            lemma_le_bytes_len(b@.len(), 6);
        }
        self.append(b);
        self.append_fill(1, 0);
        assert(Seq::new(1, |i: int| 0u8) =~= seq![0u8]);
        TextOut { slice: ArenaSlice { arena: self.id, offset, length: b.len() + 11 } }
    }
}

impl ArenaSlice {
    pub closed spec fn spec_arena(&self) -> u64 {
        self.arena
    }

    pub closed spec fn spec_offset(&self) -> nat {
        self.offset as nat
    }

    pub closed spec fn spec_length(&self) -> nat {
        self.length as nat
    }

    /// Whether the region belongs to `arena` and lies within what it holds.
    pub open spec fn within(&self, arena: &PArena) -> bool {
        &&& self.spec_arena() == arena.spec_id()
        &&& self.spec_offset() + self.spec_length() <= arena.bytes().len()
        &&& arena.wf()
    }

    /// The id of the arena the region belongs to.
    pub fn arena_id(&self) -> (r: u64)
        ensures
            r == self.spec_arena(),
    {
        self.arena
    }

    /// Where the region starts in the arena.
    pub fn get_offset(&self) -> (r: usize)
        ensures
            r == self.spec_offset(),
    {
        self.offset
    }

    /// The `length` bytes at `offset` of the region.
    pub fn part(&mut self, offset: usize, length: usize) -> (r: Self)
        requires
            offset + length <= old(self).spec_length(),
            old(self).spec_offset() + old(self).spec_length() <= usize::MAX,
        ensures
            *final(self) == *old(self),
            r.spec_arena() == old(self).spec_arena(),
            r.spec_offset() == old(self).spec_offset() + offset,
            r.spec_length() == length,
    {
        ArenaSlice { arena: self.arena, offset: self.offset + offset, length }
    }

    /// The region without its first `start` and last `end` bytes.
    pub fn cut(self, start: usize, end: usize) -> (r: Self)
        requires
            start + end <= self.spec_length(),
            self.spec_offset() + self.spec_length() <= usize::MAX,
        ensures
            r.spec_arena() == self.spec_arena(),
            r.spec_offset() == self.spec_offset() + start,
            r.spec_length() == self.spec_length() - start - end,
    {
        ArenaSlice { arena: self.arena, offset: self.offset + start, length: self.length - end - start }
    }

    /// Where byte `offset` of the region is in the arena.
    pub open spec fn pos(&self, offset: int) -> int {
        self.spec_offset() + offset
    }

    /// Writes the scalar `value` at `offset` of the region.
    pub fn set_pod<T: Pod>(&mut self, arena: &mut PArena, offset: usize, value: &T)
        requires
            old(self).within(old(arena)),
            offset + T::spec_width() <= old(self).spec_length(),
        ensures
            *final(self) == *old(self),
            final(arena).bytes() == splice(
                old(arena).bytes(),
                old(self).pos(offset as int),
                T::spec_encode(*value),
            ),
            final(arena).spec_id() == old(arena).spec_id(),
            final(arena).spec_state() == old(arena).spec_state(),
            final(arena).bytes().len() == old(arena).bytes().len(),
    {
        proof {
            T::lemma_round_trip(*value);
            lemma_splice_len(arena.data@, self.offset + offset, T::spec_encode(*value));
        }
        T::encode(*value, &mut arena.data, self.offset + offset);
    }

    /// Sets bit `bit` of the byte at `offset` of the region to `value`.
    pub fn set_bit(&mut self, arena: &mut PArena, offset: usize, bit: usize, value: bool)
        requires
            old(self).within(old(arena)),
            offset < old(self).spec_length(),
            bit < 8,
        ensures
            *final(self) == *old(self),
            final(arena).bytes() == old(arena).bytes().update(
                old(self).pos(offset as int),
                with_bit(old(arena).bytes()[old(self).pos(offset as int)], bit as u8, value),
            ),
            final(arena).spec_id() == old(arena).spec_id(),
            final(arena).spec_state() == old(arena).spec_state(),
            final(arena).bytes().len() == old(arena).bytes().len(),
    {
        let o = self.offset + offset;
        let b = set_bit_of(arena.data[o], bit as u8, value);
        arena.data.set(o, b);
    }

    /// Writes `value` as one byte, one for true, at `offset` of the region.
    pub fn set_bool(&mut self, arena: &mut PArena, offset: usize, value: bool)
        requires
            old(self).within(old(arena)),
            offset < old(self).spec_length(),
        ensures
            *final(self) == *old(self),
            final(arena).bytes() == old(arena).bytes().update(
                old(self).pos(offset as int),
                if value {
                    1u8
                } else {
                    0u8
                },
            ),
            final(arena).spec_id() == old(arena).spec_id(),
            final(arena).spec_state() == old(arena).spec_state(),
            final(arena).bytes().len() == old(arena).bytes().len(),
    {
        arena.data.set(self.offset + offset, if value {
            1
        } else {
            0
        });
    }

    /// Writes the 48-bit number `value` at `offset` of the region.
    pub fn set_u48(&mut self, arena: &mut PArena, offset: usize, value: u64)
        requires
            old(self).within(old(arena)),
            offset + 6 <= old(self).spec_length(),
            fits48(value as int),
        ensures
            *final(self) == *old(self),
            final(arena).bytes() == splice(
                old(arena).bytes(),
                old(self).pos(offset as int),
                le_bytes(value as nat, 6),
            ),
            final(arena).spec_id() == old(arena).spec_id(),
            final(arena).spec_state() == old(arena).spec_state(),
            final(arena).bytes().len() == old(arena).bytes().len(),
    {
        write_le(&mut arena.data, self.offset + offset, 6, value);
    }

    /// Writes an optional enumerator, `255` for none, at `offset` of the region.
    pub fn set_enum<T: Enum>(&mut self, arena: &mut PArena, offset: usize, value: Option<T>)
        requires
            old(self).within(old(arena)),
            offset < old(self).spec_length(),
        ensures
            *final(self) == *old(self),
            final(arena).bytes() == old(arena).bytes().update(
                old(self).pos(offset as int),
                enum_byte(value),
            ),
            final(arena).spec_id() == old(arena).spec_id(),
            final(arena).spec_state() == old(arena).spec_state(),
            final(arena).bytes().len() == old(arena).bytes().len(),
    {
        let b = match value {
            Some(e) => e.to_u8(),
            None => 255,
        };
        arena.data.set(self.offset + offset, b);
    }

    /// Copies `data` over the whole region.
    pub fn set_data(&mut self, arena: &mut PArena, data: &[u8])
        requires
            old(self).within(old(arena)),
            data@.len() == old(self).spec_length(),
        ensures
            *final(self) == *old(self),
            final(arena).bytes() == splice(old(arena).bytes(), old(self).pos(0), data@),
            final(arena).spec_id() == old(arena).spec_id(),
            final(arena).spec_state() == old(arena).spec_state(),
            final(arena).bytes().len() == old(arena).bytes().len(),
    {
        let mut i: usize = 0;
        while i < data.len()
            invariant
                i <= data@.len() == self.length,
                self.offset + self.length <= arena.data@.len(),
                arena.data@.len() == old(arena).data@.len(),
                arena.data@.len() <= usize::MAX,
                arena.id == old(arena).id,
                arena.state == old(arena).state,
                arena.data@ == splice(old(arena).data@, self.offset as int, data@.take(i as int)),
            decreases data@.len() - i,
        {
            arena.data.set(self.offset + i, data[i]);
            i = i + 1;
            assert(arena.data@ =~= splice(old(arena).data@, self.offset as int, data@.take(i as int)));
        }
        assert(data@.take(data@.len() as int) =~= data@);
    }

    /// The number a pointer field holds for a table: the position of its
    /// header, or zero for none.
    pub open spec fn table_ref<T: TableOut<Normal>>(value: Option<&T>) -> nat {
        match value {
            Some(t) => (t.spec_slice().spec_offset() - 10) as nat,
            None => 0,
        }
    }

    /// Whether `value`, if any, was written in `arena` behind a header.
    pub open spec fn table_in<T: TableOut<Normal>>(value: Option<&T>, arena: &PArena) -> bool {
        value matches Some(t) ==> {
            &&& t.spec_slice().spec_arena() == arena.spec_id()
            &&& 10 <= t.spec_slice().spec_offset() <= arena.bytes().len()
        }
    }

    /// Points the field at `offset` of the region to `value`, or clears it.
    pub fn set_table<T: TableOut<Normal>>(&mut self, arena: &mut PArena, offset: usize, value: Option<&T>)
        requires
            old(self).within(old(arena)),
            offset + 6 <= old(self).spec_length(),
            Self::table_in(value, old(arena)),
        ensures
            *final(self) == *old(self),
            final(arena).bytes() == splice(
                old(arena).bytes(),
                old(self).pos(offset as int),
                le_bytes(Self::table_ref(value), 6),
            ),
            final(arena).spec_id() == old(arena).spec_id(),
            final(arena).spec_state() == old(arena).spec_state(),
            final(arena).bytes().len() == old(arena).bytes().len(),
    {
        let o = match value {
            Some(t) => {
                if t.arena() != self.arena {
                    proof {
                        assert(false);
                    }
                }
                t.offset() - HEADER_SIZE
            },
            None => 0,
        };
        self.set_u48(arena, offset, o as u64);
    }

    /// Writes a new table and points the field at `offset` to it.
    pub fn add_table<T: TableOut<Normal>>(&mut self, arena: &mut PArena, offset: usize) -> (r: T)
        requires
            old(self).within(old(arena)),
            offset + 6 <= old(self).spec_length(),
            room(old(arena).bytes().len() as int, 10 + T::spec_size() as int),
        ensures
            *final(self) == *old(self),
            final(arena).bytes() == splice(
                old(arena).bytes() + header(T::spec_magic(), T::spec_size()) + T::spec_default(),
                old(self).pos(offset as int),
                le_bytes(old(arena).bytes().len(), 6),
            ),
            final(arena).grown_from(*old(arena)),
            r.spec_slice().spec_arena() == old(arena).spec_id(),
            r.spec_slice().spec_offset() == old(arena).bytes().len() + 10,
            r.spec_slice().spec_length() == T::spec_size(),
            final(arena).bytes().len() == old(arena).bytes().len() + 10 + T::spec_size(),
    {
        let a = arena.create_table::<T>();
        self.set_table(arena, offset, Some(&a));
        a
    }

    /// The end of the container, where in-place children go: `container_end`
    /// where given, else the end of the region.
    pub open spec fn inplace_end(&self, container_end: Option<usize>) -> nat {
        match container_end {
            Some(e) => e as nat,
            None => self.spec_offset() + self.spec_length(),
        }
    }

    /// Writes a new table in place right after the container, and stores
    /// its size in the field at `offset`. The arena must end where the
    /// container does.
    pub fn add_table_inplace<T: TableOut<Inplace>>(
        &mut self,
        arena: &mut PArena,
        offset: usize,
        container_end: Option<usize>,
    ) -> (r: T)
        requires
            old(self).within(old(arena)),
            offset + 6 <= old(self).spec_length(),
            old(self).inplace_end(container_end) == old(arena).bytes().len(),
            room(old(arena).bytes().len() as int, T::spec_size() as int),
        ensures
            *final(self) == *old(self),
            final(arena).bytes() == splice(
                old(arena).bytes() + T::spec_default(),
                old(self).pos(offset as int),
                le_bytes(T::spec_size(), 6),
            ),
            final(arena).grown_from(*old(arena)),
            r.spec_slice().spec_arena() == old(arena).spec_id(),
            r.spec_slice().spec_offset() == old(arena).bytes().len(),
            r.spec_slice().spec_length() == T::spec_size(),
    {
        let d = T::default();
        let slice = arena.allocate_default(0, d.as_slice());
        assert(old(arena).bytes() + Seq::new(0, |i: int| 0u8) =~= old(arena).bytes());
        self.set_u48(arena, offset, T::size() as u64);
        T::new(slice)
    }

    /// The number a pointer field holds for a text or bytes object: the
    /// position of its header, or zero for none.
    pub open spec fn blob_ref(value: Option<ArenaSlice>) -> nat {
        match value {
            Some(s) => s.spec_offset(),
            None => 0,
        }
    }

    /// Whether `value`, if any, was written in `arena`.
    pub open spec fn blob_in(value: Option<ArenaSlice>, arena: &PArena) -> bool {
        value matches Some(s) ==> {
            &&& s.spec_arena() == arena.spec_id()
            &&& s.spec_offset() <= arena.bytes().len()
        }
    }

    fn set_blob(&mut self, arena: &mut PArena, offset: usize, value: Option<ArenaSlice>)
        requires
            old(self).within(old(arena)),
            offset + 6 <= old(self).spec_length(),
            Self::blob_in(value, old(arena)),
        ensures
            *final(self) == *old(self),
            final(arena).bytes() == splice(
                old(arena).bytes(),
                old(self).pos(offset as int),
                le_bytes(Self::blob_ref(value), 6),
            ),
            final(arena).spec_id() == old(arena).spec_id(),
            final(arena).spec_state() == old(arena).spec_state(),
            final(arena).bytes().len() == old(arena).bytes().len(),
    {
        let o = match value {
            Some(b) => {
                if b.arena != self.arena {
                    proof {
                        assert(false);
                    }
                }
                b.offset
            },
            None => 0,
        };
        self.set_u48(arena, offset, o as u64);
    }

    /// Points the field at `offset` of the region to a bytes object, or clears it.
    pub fn set_bytes(&mut self, arena: &mut PArena, offset: usize, v: Option<&BytesOut>)
        requires
            old(self).within(old(arena)),
            offset + 6 <= old(self).spec_length(),
            Self::blob_in(BytesOut::slice_of(v), old(arena)),
        ensures
            *final(self) == *old(self),
            final(arena).bytes() == splice(
                old(arena).bytes(),
                old(self).pos(offset as int),
                le_bytes(Self::blob_ref(BytesOut::slice_of(v)), 6),
            ),
            final(arena).spec_id() == old(arena).spec_id(),
            final(arena).spec_state() == old(arena).spec_state(),
            final(arena).bytes().len() == old(arena).bytes().len(),
    {
        let s = match v {
            Some(b) => Some(b.slice),
            None => None,
        };
        self.set_blob(arena, offset, s);
    }

    /// Writes a bytes object holding `v` and points the field at `offset` to it.
    pub fn add_bytes(&mut self, arena: &mut PArena, offset: usize, v: &[u8]) -> (r: BytesOut)
        requires
            old(self).within(old(arena)),
            offset + 6 <= old(self).spec_length(),
            room(old(arena).bytes().len() as int, 10 + v@.len() as int),
        ensures
            *final(self) == *old(self),
            final(arena).bytes() == splice(
                old(arena).bytes() + header(BYTESMAGIC, v@.len()) + v@,
                old(self).pos(offset as int),
                le_bytes(old(arena).bytes().len(), 6),
            ),
            final(arena).grown_from(*old(arena)),
            r.slice().spec_arena() == old(arena).spec_id(),
            r.slice().spec_offset() == old(arena).bytes().len(),
    {
        let ans = arena.create_bytes(v);
        self.set_bytes(arena, offset, Some(&ans));
        ans
    }

    /// Writes `v` in place right after the container, and stores its length
    /// in the field at `offset`. The arena must end where the container does.
    pub fn add_bytes_inplace(
        &mut self,
        arena: &mut PArena,
        offset: usize,
        v: &[u8],
        container_end: Option<usize>,
    )
        requires
            old(self).within(old(arena)),
            offset + 6 <= old(self).spec_length(),
            old(self).inplace_end(container_end) == old(arena).bytes().len(),
            room(old(arena).bytes().len() as int, v@.len() as int),
        ensures
            *final(self) == *old(self),
            final(arena).bytes() == splice(
                old(arena).bytes() + v@,
                old(self).pos(offset as int),
                le_bytes(v@.len(), 6),
            ),
            final(arena).grown_from(*old(arena)),
    {
        arena.append(v);
        self.set_u48(arena, offset, v.len() as u64);
    }

    /// Points the field at `offset` of the region to a text object, or clears it.
    pub fn set_text(&mut self, arena: &mut PArena, offset: usize, v: Option<&TextOut>)
        requires
            old(self).within(old(arena)),
            offset + 6 <= old(self).spec_length(),
            Self::blob_in(TextOut::slice_of(v), old(arena)),
        ensures
            *final(self) == *old(self),
            final(arena).bytes() == splice(
                old(arena).bytes(),
                old(self).pos(offset as int),
                le_bytes(Self::blob_ref(TextOut::slice_of(v)), 6),
            ),
            final(arena).spec_id() == old(arena).spec_id(),
            final(arena).spec_state() == old(arena).spec_state(),
            final(arena).bytes().len() == old(arena).bytes().len(),
    {
        let s = match v {
            Some(b) => Some(b.slice),
            None => None,
        };
        self.set_blob(arena, offset, s);
    }

    /// Writes a text object holding `v` and points the field at `offset` to it.
    pub fn add_text(&mut self, arena: &mut PArena, offset: usize, v: &str) -> (r: TextOut)
        requires
            old(self).within(old(arena)),
            offset + 6 <= old(self).spec_length(),
            room(old(arena).bytes().len() as int, 11 + v.spec_bytes().len() as int),
        ensures
            *final(self) == *old(self),
            final(arena).bytes() == splice(
                old(arena).bytes() + header(TEXTMAGIC, v.spec_bytes().len()) + v.spec_bytes()
                    + seq![0u8],
                old(self).pos(offset as int),
                le_bytes(old(arena).bytes().len(), 6),
            ),
            final(arena).grown_from(*old(arena)),
            r.slice().spec_arena() == old(arena).spec_id(),
            r.slice().spec_offset() == old(arena).bytes().len(),
    {
        let ans = arena.create_text(v);
        self.set_text(arena, offset, Some(&ans));
        ans
    }

    /// Writes `v` and a zero byte in place right after the container, and
    /// stores its length in the field at `offset`. The arena must end where
    /// the container does.
    pub fn add_text_inplace(
        &mut self,
        arena: &mut PArena,
        offset: usize,
        v: &str,
        container_end: Option<usize>,
    )
        requires
            old(self).within(old(arena)),
            offset + 6 <= old(self).spec_length(),
            old(self).inplace_end(container_end) == old(arena).bytes().len(),
            room(old(arena).bytes().len() as int, 1 + v.spec_bytes().len() as int),
        ensures
            *final(self) == *old(self),
            final(arena).bytes() == splice(
                old(arena).bytes() + v.spec_bytes() + seq![0u8],
                old(self).pos(offset as int),
                le_bytes(v.spec_bytes().len(), 6),
            ),
            final(arena).grown_from(*old(arena)),
    {
        let b = v.as_bytes();
        arena.append(b);
        arena.append_fill(1, 0);
        assert(Seq::new(1, |i: int| 0u8) =~= seq![0u8]);
        self.set_u48(arena, offset, b.len() as u64);
    }

    /// The number a pointer field holds for a list: the position of its
    /// header, or zero for none.
    pub open spec fn list_ref<T: ListWrite>(value: Option<&ListOut<T, Normal>>) -> nat {
        match value {
            Some(l) => (l.spec_slice().spec_offset() - T::spec_head_size()) as nat,
            None => 0,
        }
    }

    /// Whether `value`, if any, was written in `arena` behind its header.
    pub open spec fn list_in<T: ListWrite>(value: Option<&ListOut<T, Normal>>, arena: &PArena) -> bool {
        value matches Some(l) ==> {
            &&& l.spec_slice().spec_arena() == arena.spec_id()
            &&& T::spec_head_size() <= l.spec_slice().spec_offset() <= arena.bytes().len()
        }
    }

    /// Points the field at `offset` of the region to a list, or clears it.
    pub fn set_list<T: ListWrite>(
        &mut self,
        arena: &mut PArena,
        offset: usize,
        v: Option<&ListOut<T, Normal>>,
    )
        requires
            old(self).within(old(arena)),
            offset + 6 <= old(self).spec_length(),
            Self::list_in(v, old(arena)),
        ensures
            *final(self) == *old(self),
            final(arena).bytes() == splice(
                old(arena).bytes(),
                old(self).pos(offset as int),
                le_bytes(Self::list_ref(v), 6),
            ),
            final(arena).spec_id() == old(arena).spec_id(),
            final(arena).spec_state() == old(arena).spec_state(),
            final(arena).bytes().len() == old(arena).bytes().len(),
    {
        let o = match v {
            Some(l) => {
                let s = l.slice();
                if s.arena != self.arena {
                    proof {
                        assert(false);
                    }
                }
                s.offset - T::list_head_size()
            },
            None => 0,
        };
        self.set_u48(arena, offset, o as u64);
    }

    /// Writes a new list of `len` items and points the field at `offset` to it.
    pub fn add_list<T: ListWrite>(&mut self, arena: &mut PArena, offset: usize, len: usize) -> (r:
        ListOut<T, Normal>)
        requires
            old(self).within(old(arena)),
            offset + 6 <= old(self).spec_length(),
            room(old(arena).bytes().len() as int, 10 + T::spec_list_bytes(len as nat) as int),
            fits48(len as int),
            T::spec_head_size() == 10,
        ensures
            *final(self) == *old(self),
            final(arena).bytes() == splice(
                old(arena).bytes() + header(LISTMAGIC, len as nat) + Seq::new(
                    T::spec_list_bytes(len as nat),
                    |i: int| T::spec_list_def(),
                ),
                old(self).pos(offset as int),
                le_bytes(old(arena).bytes().len(), 6),
            ),
            final(arena).grown_from(*old(arena)),
            r.spec_slice().spec_arena() == old(arena).spec_id(),
            r.spec_slice().spec_offset() == old(arena).bytes().len() + 10,
            r.spec_len() == len,
            r.wf(),
    {
        let ans = arena.create_list::<T>(len);
        self.set_list(arena, offset, Some(&ans));
        ans
    }

    /// Writes a new list of `len` tables laid out back to back and points
    /// the field at `offset` to it.
    pub fn add_direct_table_list<T: TableOut<Normal>>(
        &mut self,
        arena: &mut PArena,
        offset: usize,
        len: usize,
    ) -> (r: ListOut<DirectTableListWrite<T>, Normal>)
        requires
            old(self).within(old(arena)),
            offset + 6 <= old(self).spec_length(),
            room(old(arena).bytes().len() as int, 18 + len * T::spec_size()),
            fits48(len as int),
            T::spec_size() <= u32::MAX,
        ensures
            *final(self) == *old(self),
            final(arena).bytes() == splice(
                old(arena).bytes() + header(DIRECTLISTMAGIC, len as nat) + le_bytes(
                    T::spec_magic() as nat,
                    4,
                ) + le_bytes(T::spec_size(), 4) + Seq::new((len * T::spec_size()) as nat, |i: int| 0u8),
                old(self).pos(offset as int),
                le_bytes(old(arena).bytes().len(), 6),
            ),
            final(arena).grown_from(*old(arena)),
            r.spec_slice().spec_arena() == old(arena).spec_id(),
            r.spec_slice().spec_offset() == old(arena).bytes().len() + 18,
            r.spec_len() == len,
            r.wf(),
    {
        let ans = arena.create_direct_table_list::<T>(len);
        self.set_list(arena, offset, Some(&ans));
        ans
    }

    /// Writes a list of `len` items in place right after the container, and
    /// stores its length in the field at `offset`. The arena must end where
    /// the container does.
    pub fn add_list_inplace<T: ListWrite>(
        &mut self,
        arena: &mut PArena,
        offset: usize,
        len: usize,
        container_end: Option<usize>,
    ) -> (r: ListOut<T, Inplace>)
        requires
            old(self).within(old(arena)),
            offset + 6 <= old(self).spec_length(),
            old(self).inplace_end(container_end) == old(arena).bytes().len(),
            room(old(arena).bytes().len() as int, T::spec_list_bytes(len as nat) as int),
            fits48(len as int),
        ensures
            *final(self) == *old(self),
            final(arena).bytes() == splice(
                old(arena).bytes() + Seq::new(
                    T::spec_list_bytes(len as nat),
                    |i: int| T::spec_list_def(),
                ),
                old(self).pos(offset as int),
                le_bytes(len as nat, 6),
            ),
            final(arena).grown_from(*old(arena)),
            r.spec_slice().spec_arena() == old(arena).spec_id(),
            r.spec_slice().spec_offset() == old(arena).bytes().len(),
            r.spec_len() == len,
            r.wf(),
    {
        let slice = arena.allocate(T::list_bytes(len), T::list_def());
        self.set_u48(arena, offset, len as u64);
        ListOut::from_slice(slice, len)
    }

    /// The handle of the struct at `offset` of the region.
    pub fn get_struct<F: Struct>(&mut self, offset: usize) -> (r: F::Out)
        requires
            offset + F::Out::spec_size() <= old(self).spec_length(),
            old(self).spec_offset() + old(self).spec_length() <= usize::MAX,
        ensures
            *final(self) == *old(self),
            r.spec_slice().spec_arena() == old(self).spec_arena(),
            r.spec_slice().spec_offset() == old(self).spec_offset() + offset,
            r.spec_slice().spec_length() == F::Out::spec_size(),
    {
        let size = F::Out::size();
        F::Out::new(self.part(offset, size))
    }

    /// The handle of the union slot at `offset` of the region.
    pub fn get_union<F: Union>(&mut self, offset: usize) -> (r: F::Out)
        requires
            offset + 8 <= old(self).spec_length(),
            old(self).spec_offset() + old(self).spec_length() <= usize::MAX,
        ensures
            *final(self) == *old(self),
            F::out_slice(&r).spec_arena() == old(self).spec_arena(),
            F::out_slice(&r).spec_offset() == old(self).spec_offset() + offset,
            F::out_slice(&r).spec_length() == 8,
    {
        F::new_out(self.part(offset, 8))
    }

    /// The handle of the union slot at `offset` of the region, whose payload
    /// goes in place right after the region.
    pub fn get_union_inplace<F: Union>(&mut self, offset: usize) -> (r: F::InplaceOut)
        requires
            offset + 8 <= old(self).spec_length(),
            old(self).spec_offset() + old(self).spec_length() <= usize::MAX,
        ensures
            *final(self) == *old(self),
            F::inplace_slice(&r).0.spec_arena() == old(self).spec_arena(),
            F::inplace_slice(&r).0.spec_offset() == old(self).spec_offset() + offset,
            F::inplace_slice(&r).0.spec_length() == 8,
            F::inplace_slice(&r).1 == old(self).spec_offset() + old(self).spec_length(),
    {
        let end = self.offset + self.length;
        F::new_inplace_out(self.part(offset, 8), end)
    }
}

/// The arena that one outgoing message is written in.
pub struct Arena {
    pub arena: PArena,
}

impl Arena {
    /// An arena that writes into `data`, whose contents are dropped; `id`
    /// tells its handles from those of other arenas.
    pub fn new(data: Vec<u8>, id: u64) -> (r: Arena)
        ensures
            r.arena.bytes() == Seq::<u8>::empty(),
            r.arena.spec_state() == ArenaState::BeforeWriter,
            r.arena.spec_id() == id,
            r.arena.wf(),
    {
        let mut data = data;
        data.clear();
        Arena { arena: PArena { data, state: ArenaState::BeforeWriter, id } }
    }

    /// The finished message: a writer was made and a root added.
    pub fn finalize(self) -> (r: Vec<u8>)
        requires
            self.arena.spec_state() == ArenaState::AfterRoot,
        ensures
            r@ == self.arena.bytes(),
    {
        self.arena.data
    }
}

/// Writes the message header, the root, and objects that are not yet
/// referred to.
pub struct Writer {
    slice: ArenaSlice,
}

impl Writer {
    /// The region of the message header.
    pub closed spec fn spec_slice(&self) -> ArenaSlice {
        self.slice
    }

    /// Whether the writer's header is the first ten bytes of `arena`.
    pub open spec fn ready(&self, arena: &Arena) -> bool {
        &&& self.spec_slice().spec_arena() == arena.arena.spec_id()
        &&& self.spec_slice().spec_offset() == 0
        &&& self.spec_slice().spec_length() == 10
        &&& arena.arena.bytes().len() >= 10
        &&& arena.arena.wf()
    }

    /// The one writer of a fresh arena: it reserves the message header.
    pub fn new(arena: &mut Arena) -> (r: Writer)
        requires
            old(arena).arena.spec_state() == ArenaState::BeforeWriter,
            old(arena).arena.bytes().len() == 0,
        ensures
            final(arena).arena.bytes() == Seq::new(10, |i: int| 0u8),
            final(arena).arena.spec_state() == ArenaState::BeforeRoot,
            final(arena).arena.spec_id() == old(arena).arena.spec_id(),
            r.ready(&*final(arena)),
    {
        arena.arena.state = ArenaState::BeforeRoot;
        let slice = arena.arena.allocate(HEADER_SIZE, 0);
        assert(Seq::<u8>::empty() + Seq::new(10, |i: int| 0u8) =~= Seq::new(10, |i: int| 0u8));
        Writer { slice }
    }

    /// Writes the root table, with every field at its default, and points the
    /// message header to it. There is one root per message.
    pub fn add_root<'a, F: Table<'a>>(&mut self, arena: &mut Arena) -> (r: F::Out)
        requires
            old(self).ready(&*old(arena)),
            old(arena).arena.spec_state() == ArenaState::BeforeRoot,
            room(old(arena).arena.bytes().len() as int, 10 + F::Out::spec_size() as int),
        ensures
            *final(self) == *old(self),
            final(arena).arena.bytes() == splice(
                old(arena).arena.bytes() + header(F::Out::spec_magic(), F::Out::spec_size())
                    + F::Out::spec_default(),
                0,
                header(ROOTMAGIC, old(arena).arena.bytes().len()),
            ),
            final(arena).arena.spec_state() == ArenaState::AfterRoot,
            final(arena).arena.spec_id() == old(arena).arena.spec_id(),
            final(arena).arena.wf(),
            final(self).ready(&*final(arena)),
            r.spec_slice().spec_arena() == old(arena).arena.spec_id(),
            r.spec_slice().spec_offset() == old(arena).arena.bytes().len() + 10,
            r.spec_slice().spec_length() == F::Out::spec_size(),
    {
        arena.arena.state = ArenaState::AfterRoot;
        let root = arena.arena.create_table::<F::Out>();
        let ghost mid = arena.arena.bytes();
        self.slice.set_pod(&mut arena.arena, 0, &ROOTMAGIC);
        let ghost mid2 = arena.arena.bytes();
        self.slice.set_u48(&mut arena.arena, 4, (root.offset() - HEADER_SIZE) as u64);
        proof {
            u32::lemma_round_trip(ROOTMAGIC);
            lemma_le_bytes_len(ROOTMAGIC as nat, 4);
            lemma_le_bytes_len(old(arena).arena.bytes().len(), 6);
            assert(arena.arena.bytes() =~= splice(
                mid,
                0,
                header(ROOTMAGIC, old(arena).arena.bytes().len()),
            ));
        }
        root
    }

    /// Writes a table, with every field at its default, that nothing refers to yet.
    pub fn add_table<'a, F: Table<'a>>(&mut self, arena: &mut Arena) -> (r: F::Out)
        requires
            room(old(arena).arena.bytes().len() as int, 10 + F::Out::spec_size() as int),
        ensures
            final(arena).arena.bytes() == old(arena).arena.bytes() + header(
                F::Out::spec_magic(),
                F::Out::spec_size(),
            ) + F::Out::spec_default(),
            final(arena).arena.grown_from(old(arena).arena),
            r.spec_slice().spec_arena() == old(arena).arena.spec_id(),
            r.spec_slice().spec_offset() == old(arena).arena.bytes().len() + 10,
            r.spec_slice().spec_length() == F::Out::spec_size(),
    {
        arena.arena.create_table::<F::Out>()
    }

    /// Writes a text object that nothing refers to yet.
    pub fn add_text(&mut self, arena: &mut Arena, text: &str) -> (r: TextOut)
        requires
            room(old(arena).arena.bytes().len() as int, 11 + text.spec_bytes().len() as int),
        ensures
            final(arena).arena.bytes() == old(arena).arena.bytes() + header(
                TEXTMAGIC,
                text.spec_bytes().len(),
            ) + text.spec_bytes() + seq![0u8],
            final(arena).arena.grown_from(old(arena).arena),
            r.slice().spec_arena() == old(arena).arena.spec_id(),
            r.slice().spec_offset() == old(arena).arena.bytes().len(),
    {
        arena.arena.create_text(text)
    }

    /// Writes a bytes object that nothing refers to yet.
    pub fn add_bytes(&mut self, arena: &mut Arena, bytes: &[u8]) -> (r: BytesOut)
        requires
            room(old(arena).arena.bytes().len() as int, 10 + bytes@.len() as int),
        ensures
            final(arena).arena.bytes() == old(arena).arena.bytes() + header(
                BYTESMAGIC,
                bytes@.len(),
            ) + bytes@,
            final(arena).arena.grown_from(old(arena).arena),
            r.slice().spec_arena() == old(arena).arena.spec_id(),
            r.slice().spec_offset() == old(arena).arena.bytes().len(),
    {
        arena.arena.create_bytes(bytes)
    }

    /// Writes a list of `size` `u8` items, all zero, that nothing refers to yet.
    pub fn add_u8_list(&mut self, arena: &mut Arena, size: usize) -> (r: ListOut<PodListWrite<u8>, Normal>)
        requires
            room(
                old(arena).arena.bytes().len() as int,
                10 + <PodListWrite<u8> as ListWrite>::spec_list_bytes(size as nat) as int,
            ),
            fits48(size as int),
        ensures
            final(arena).arena.bytes() == old(arena).arena.bytes() + header(LISTMAGIC, size as nat)
                + Seq::new(
                <PodListWrite<u8> as ListWrite>::spec_list_bytes(size as nat),
                |i: int| <PodListWrite<u8> as ListWrite>::spec_list_def(),
            ),
            final(arena).arena.grown_from(old(arena).arena),
            r.spec_slice().spec_arena() == old(arena).arena.spec_id(),
            r.spec_slice().spec_offset() == old(arena).arena.bytes().len() + 10,
            r.spec_len() == size,
            r.wf(),
    {
        arena.arena.create_list::<PodListWrite<u8>>(size)
    }

    /// Writes a list of `size` `u16` items, all zero, that nothing refers to yet.
    pub fn add_u16_list(&mut self, arena: &mut Arena, size: usize) -> (r: ListOut<PodListWrite<u16>, Normal>)
        requires
            room(
                old(arena).arena.bytes().len() as int,
                10 + <PodListWrite<u16> as ListWrite>::spec_list_bytes(size as nat) as int,
            ),
            fits48(size as int),
        ensures
            final(arena).arena.bytes() == old(arena).arena.bytes() + header(LISTMAGIC, size as nat)
                + Seq::new(
                <PodListWrite<u16> as ListWrite>::spec_list_bytes(size as nat),
                |i: int| <PodListWrite<u16> as ListWrite>::spec_list_def(),
            ),
            final(arena).arena.grown_from(old(arena).arena),
            r.spec_slice().spec_arena() == old(arena).arena.spec_id(),
            r.spec_slice().spec_offset() == old(arena).arena.bytes().len() + 10,
            r.spec_len() == size,
            r.wf(),
    {
        arena.arena.create_list::<PodListWrite<u16>>(size)
    }

    /// Writes a list of `size` `u32` items, all zero, that nothing refers to yet.
    pub fn add_u32_list(&mut self, arena: &mut Arena, size: usize) -> (r: ListOut<PodListWrite<u32>, Normal>)
        requires
            room(
                old(arena).arena.bytes().len() as int,
                10 + <PodListWrite<u32> as ListWrite>::spec_list_bytes(size as nat) as int,
            ),
            fits48(size as int),
        ensures
            final(arena).arena.bytes() == old(arena).arena.bytes() + header(LISTMAGIC, size as nat)
                + Seq::new(
                <PodListWrite<u32> as ListWrite>::spec_list_bytes(size as nat),
                |i: int| <PodListWrite<u32> as ListWrite>::spec_list_def(),
            ),
            final(arena).arena.grown_from(old(arena).arena),
            r.spec_slice().spec_arena() == old(arena).arena.spec_id(),
            r.spec_slice().spec_offset() == old(arena).arena.bytes().len() + 10,
            r.spec_len() == size,
            r.wf(),
    {
        arena.arena.create_list::<PodListWrite<u32>>(size)
    }

    /// Writes a list of `size` `u64` items, all zero, that nothing refers to yet.
    pub fn add_u64_list(&mut self, arena: &mut Arena, size: usize) -> (r: ListOut<PodListWrite<u64>, Normal>)
        requires
            room(
                old(arena).arena.bytes().len() as int,
                10 + <PodListWrite<u64> as ListWrite>::spec_list_bytes(size as nat) as int,
            ),
            fits48(size as int),
        ensures
            final(arena).arena.bytes() == old(arena).arena.bytes() + header(LISTMAGIC, size as nat)
                + Seq::new(
                <PodListWrite<u64> as ListWrite>::spec_list_bytes(size as nat),
                |i: int| <PodListWrite<u64> as ListWrite>::spec_list_def(),
            ),
            final(arena).arena.grown_from(old(arena).arena),
            r.spec_slice().spec_arena() == old(arena).arena.spec_id(),
            r.spec_slice().spec_offset() == old(arena).arena.bytes().len() + 10,
            r.spec_len() == size,
            r.wf(),
    {
        arena.arena.create_list::<PodListWrite<u64>>(size)
    }

    /// Writes a list of `size` `i8` items, all zero, that nothing refers to yet.
    pub fn add_i8_list(&mut self, arena: &mut Arena, size: usize) -> (r: ListOut<PodListWrite<i8>, Normal>)
        requires
            room(
                old(arena).arena.bytes().len() as int,
                10 + <PodListWrite<i8> as ListWrite>::spec_list_bytes(size as nat) as int,
            ),
            fits48(size as int),
        ensures
            final(arena).arena.bytes() == old(arena).arena.bytes() + header(LISTMAGIC, size as nat)
                + Seq::new(
                <PodListWrite<i8> as ListWrite>::spec_list_bytes(size as nat),
                |i: int| <PodListWrite<i8> as ListWrite>::spec_list_def(),
            ),
            final(arena).arena.grown_from(old(arena).arena),
            r.spec_slice().spec_arena() == old(arena).arena.spec_id(),
            r.spec_slice().spec_offset() == old(arena).arena.bytes().len() + 10,
            r.spec_len() == size,
            r.wf(),
    {
        arena.arena.create_list::<PodListWrite<i8>>(size)
    }

    /// Writes a list of `size` `i16` items, all zero, that nothing refers to yet.
    pub fn add_i16_list(&mut self, arena: &mut Arena, size: usize) -> (r: ListOut<PodListWrite<i16>, Normal>)
        requires
            room(
                old(arena).arena.bytes().len() as int,
                10 + <PodListWrite<i16> as ListWrite>::spec_list_bytes(size as nat) as int,
            ),
            fits48(size as int),
        ensures
            final(arena).arena.bytes() == old(arena).arena.bytes() + header(LISTMAGIC, size as nat)
                + Seq::new(
                <PodListWrite<i16> as ListWrite>::spec_list_bytes(size as nat),
                |i: int| <PodListWrite<i16> as ListWrite>::spec_list_def(),
            ),
            final(arena).arena.grown_from(old(arena).arena),
            r.spec_slice().spec_arena() == old(arena).arena.spec_id(),
            r.spec_slice().spec_offset() == old(arena).arena.bytes().len() + 10,
            r.spec_len() == size,
            r.wf(),
    {
        arena.arena.create_list::<PodListWrite<i16>>(size)
    }

    /// Writes a list of `size` `i32` items, all zero, that nothing refers to yet.
    pub fn add_i32_list(&mut self, arena: &mut Arena, size: usize) -> (r: ListOut<PodListWrite<i32>, Normal>)
        requires
            room(
                old(arena).arena.bytes().len() as int,
                10 + <PodListWrite<i32> as ListWrite>::spec_list_bytes(size as nat) as int,
            ),
            fits48(size as int),
        ensures
            final(arena).arena.bytes() == old(arena).arena.bytes() + header(LISTMAGIC, size as nat)
                + Seq::new(
                <PodListWrite<i32> as ListWrite>::spec_list_bytes(size as nat),
                |i: int| <PodListWrite<i32> as ListWrite>::spec_list_def(),
            ),
            final(arena).arena.grown_from(old(arena).arena),
            r.spec_slice().spec_arena() == old(arena).arena.spec_id(),
            r.spec_slice().spec_offset() == old(arena).arena.bytes().len() + 10,
            r.spec_len() == size,
            r.wf(),
    {
        arena.arena.create_list::<PodListWrite<i32>>(size)
    }

    /// Writes a list of `size` `i64` items, all zero, that nothing refers to yet.
    pub fn add_i64_list(&mut self, arena: &mut Arena, size: usize) -> (r: ListOut<PodListWrite<i64>, Normal>)
        requires
            room(
                old(arena).arena.bytes().len() as int,
                10 + <PodListWrite<i64> as ListWrite>::spec_list_bytes(size as nat) as int,
            ),
            fits48(size as int),
        ensures
            final(arena).arena.bytes() == old(arena).arena.bytes() + header(LISTMAGIC, size as nat)
                + Seq::new(
                <PodListWrite<i64> as ListWrite>::spec_list_bytes(size as nat),
                |i: int| <PodListWrite<i64> as ListWrite>::spec_list_def(),
            ),
            final(arena).arena.grown_from(old(arena).arena),
            r.spec_slice().spec_arena() == old(arena).arena.spec_id(),
            r.spec_slice().spec_offset() == old(arena).arena.bytes().len() + 10,
            r.spec_len() == size,
            r.wf(),
    {
        arena.arena.create_list::<PodListWrite<i64>>(size)
    }

    /// Writes a list of `size` enumerators, all none, that nothing refers to yet.
    pub fn add_enum_list<T: Enum>(&mut self, arena: &mut Arena, size: usize) -> (r: ListOut<EnumListWrite<T>, Normal>)
        requires
            room(
                old(arena).arena.bytes().len() as int,
                10 + <EnumListWrite<T> as ListWrite>::spec_list_bytes(size as nat) as int,
            ),
            fits48(size as int),
        ensures
            final(arena).arena.bytes() == old(arena).arena.bytes() + header(LISTMAGIC, size as nat)
                + Seq::new(
                <EnumListWrite<T> as ListWrite>::spec_list_bytes(size as nat),
                |i: int| <EnumListWrite<T> as ListWrite>::spec_list_def(),
            ),
            final(arena).arena.grown_from(old(arena).arena),
            r.spec_slice().spec_arena() == old(arena).arena.spec_id(),
            r.spec_slice().spec_offset() == old(arena).arena.bytes().len() + 10,
            r.spec_len() == size,
            r.wf(),
    {
        arena.arena.create_list::<EnumListWrite<T>>(size)
    }

    /// Writes a list of `size` table pointers, all none, that nothing refers to yet.
    pub fn add_table_list<'a, F: Table<'a>>(&mut self, arena: &mut Arena, size: usize) -> (r: ListOut<TableListWrite<F::Out>, Normal>)
        requires
            room(
                old(arena).arena.bytes().len() as int,
                10 + <TableListWrite<F::Out> as ListWrite>::spec_list_bytes(size as nat) as int,
            ),
            fits48(size as int),
        ensures
            final(arena).arena.bytes() == old(arena).arena.bytes() + header(LISTMAGIC, size as nat)
                + Seq::new(
                <TableListWrite<F::Out> as ListWrite>::spec_list_bytes(size as nat),
                |i: int| <TableListWrite<F::Out> as ListWrite>::spec_list_def(),
            ),
            final(arena).arena.grown_from(old(arena).arena),
            r.spec_slice().spec_arena() == old(arena).arena.spec_id(),
            r.spec_slice().spec_offset() == old(arena).arena.bytes().len() + 10,
            r.spec_len() == size,
            r.wf(),
    {
        arena.arena.create_list::<TableListWrite<F::Out>>(size)
    }

    /// Writes a list of `size` structs, all zero, that nothing refers to yet.
    pub fn add_struct_list<F: Struct>(&mut self, arena: &mut Arena, size: usize) -> (r: ListOut<StructListWrite<F::Out>, Normal>)
        requires
            room(
                old(arena).arena.bytes().len() as int,
                10 + <StructListWrite<F::Out> as ListWrite>::spec_list_bytes(size as nat) as int,
            ),
            fits48(size as int),
        ensures
            final(arena).arena.bytes() == old(arena).arena.bytes() + header(LISTMAGIC, size as nat)
                + Seq::new(
                <StructListWrite<F::Out> as ListWrite>::spec_list_bytes(size as nat),
                |i: int| <StructListWrite<F::Out> as ListWrite>::spec_list_def(),
            ),
            final(arena).arena.grown_from(old(arena).arena),
            r.spec_slice().spec_arena() == old(arena).arena.spec_id(),
            r.spec_slice().spec_offset() == old(arena).arena.bytes().len() + 10,
            r.spec_len() == size,
            r.wf(),
    {
        arena.arena.create_list::<StructListWrite<F::Out>>(size)
    }

    /// Writes a list of `size` union slots, all unset, that nothing refers to yet.
    pub fn add_union_list<F: Union>(&mut self, arena: &mut Arena, size: usize) -> (r: ListOut<UnionListWrite<F>, Normal>)
        requires
            room(
                old(arena).arena.bytes().len() as int,
                10 + <UnionListWrite<F> as ListWrite>::spec_list_bytes(size as nat) as int,
            ),
            fits48(size as int),
        ensures
            final(arena).arena.bytes() == old(arena).arena.bytes() + header(LISTMAGIC, size as nat)
                + Seq::new(
                <UnionListWrite<F> as ListWrite>::spec_list_bytes(size as nat),
                |i: int| <UnionListWrite<F> as ListWrite>::spec_list_def(),
            ),
            final(arena).arena.grown_from(old(arena).arena),
            r.spec_slice().spec_arena() == old(arena).arena.spec_id(),
            r.spec_slice().spec_offset() == old(arena).arena.bytes().len() + 10,
            r.spec_len() == size,
            r.wf(),
    {
        arena.arena.create_list::<UnionListWrite<F>>(size)
    }

    /// Writes a list of `size` text pointers, all none, that nothing refers to yet.
    pub fn add_text_list(&mut self, arena: &mut Arena, size: usize) -> (r: ListOut<TextListWrite, Normal>)
        requires
            room(
                old(arena).arena.bytes().len() as int,
                10 + <TextListWrite as ListWrite>::spec_list_bytes(size as nat) as int,
            ),
            fits48(size as int),
        ensures
            final(arena).arena.bytes() == old(arena).arena.bytes() + header(LISTMAGIC, size as nat)
                + Seq::new(
                <TextListWrite as ListWrite>::spec_list_bytes(size as nat),
                |i: int| <TextListWrite as ListWrite>::spec_list_def(),
            ),
            final(arena).arena.grown_from(old(arena).arena),
            r.spec_slice().spec_arena() == old(arena).arena.spec_id(),
            r.spec_slice().spec_offset() == old(arena).arena.bytes().len() + 10,
            r.spec_len() == size,
            r.wf(),
    {
        arena.arena.create_list::<TextListWrite>(size)
    }

    /// Writes a list of `size` bytes pointers, all none, that nothing refers to yet.
    pub fn add_bytes_list(&mut self, arena: &mut Arena, size: usize) -> (r: ListOut<BytesListWrite, Normal>)
        requires
            room(
                old(arena).arena.bytes().len() as int,
                10 + <BytesListWrite as ListWrite>::spec_list_bytes(size as nat) as int,
            ),
            fits48(size as int),
        ensures
            final(arena).arena.bytes() == old(arena).arena.bytes() + header(LISTMAGIC, size as nat)
                + Seq::new(
                <BytesListWrite as ListWrite>::spec_list_bytes(size as nat),
                |i: int| <BytesListWrite as ListWrite>::spec_list_def(),
            ),
            final(arena).arena.grown_from(old(arena).arena),
            r.spec_slice().spec_arena() == old(arena).arena.spec_id(),
            r.spec_slice().spec_offset() == old(arena).arena.bytes().len() + 10,
            r.spec_len() == size,
            r.wf(),
    {
        arena.arena.create_list::<BytesListWrite>(size)
    }

    /// Writes a list of `size` booleans, all false, that nothing refers to yet.
    pub fn add_bool_list(&mut self, arena: &mut Arena, size: usize) -> (r: ListOut<BoolListWrite, Normal>)
        requires
            room(
                old(arena).arena.bytes().len() as int,
                10 + <BoolListWrite as ListWrite>::spec_list_bytes(size as nat) as int,
            ),
            fits48(size as int),
        ensures
            final(arena).arena.bytes() == old(arena).arena.bytes() + header(LISTMAGIC, size as nat)
                + Seq::new(
                <BoolListWrite as ListWrite>::spec_list_bytes(size as nat),
                |i: int| <BoolListWrite as ListWrite>::spec_list_def(),
            ),
            final(arena).arena.grown_from(old(arena).arena),
            r.spec_slice().spec_arena() == old(arena).arena.spec_id(),
            r.spec_slice().spec_offset() == old(arena).arena.bytes().len() + 10,
            r.spec_len() == size,
            r.wf(),
    {
        arena.arena.create_list::<BoolListWrite>(size)
    }

    /// Writes a list of `size` tables laid out back to back, that nothing
    /// refers to yet.
    pub fn add_direct_table_list<'a, F: Table<'a>>(&mut self, arena: &mut Arena, size: usize) -> (r:
        ListOut<DirectTableListWrite<F::Out>, Normal>)
        requires
            room(old(arena).arena.bytes().len() as int, 18 + size * F::Out::spec_size()),
            fits48(size as int),
            F::Out::spec_size() <= u32::MAX,
        ensures
            final(arena).arena.bytes() == old(arena).arena.bytes() + header(
                DIRECTLISTMAGIC,
                size as nat,
            ) + le_bytes(F::Out::spec_magic() as nat, 4) + le_bytes(F::Out::spec_size(), 4)
                + Seq::new((size * F::Out::spec_size()) as nat, |i: int| 0u8),
            final(arena).arena.grown_from(old(arena).arena),
            r.spec_slice().spec_arena() == old(arena).arena.spec_id(),
            r.spec_slice().spec_offset() == old(arena).arena.bytes().len() + 18,
            r.spec_len() == size,
            r.wf(),
    {
        arena.arena.create_direct_table_list::<F::Out>(size)
    }
}

impl TextOut {
    /// The region of the whole object, header included.
    pub closed spec fn slice(&self) -> ArenaSlice {
        self.slice
    }

    pub open spec fn slice_of(v: Option<&TextOut>) -> Option<ArenaSlice> {
        match v {
            Some(t) => Some(t.slice()),
            None => None,
        }
    }
}

impl BytesOut {
    /// The region of the whole object, header included.
    pub closed spec fn slice(&self) -> ArenaSlice {
        self.slice
    }

    pub open spec fn slice_of(v: Option<&BytesOut>) -> Option<ArenaSlice> {
        match v {
            Some(t) => Some(t.slice()),
            None => None,
        }
    }
}

} // verus!
