//! Lists on the write side: a fixed number of items, allocated at once and
//! set one at a time.

use vstd::prelude::*;
use core::marker::PhantomData;
use vstd::string::StringSliceAdditionalSpecFns;
use crate::arena::{
    header, room, ArenaSlice, BytesOut, Normal, PArena, Placement, StructOut,
    TableOut, TextOut, Union,
};
use crate::codec::{le_bytes, splice, with_bit, BYTESMAGIC, TEXTMAGIC};
use crate::pod::{enum_byte, Enum, Pod};

verus! {

/// How the items of a list are laid out when it is written.
pub trait ListWrite {
    /// Bytes that `len` items take.
    spec fn spec_list_bytes(len: nat) -> nat;

    /// The byte a new list is filled with.
    spec fn spec_list_def() -> u8;

    /// Bytes from the start of the list's header to its first item.
    spec fn spec_head_size() -> nat;

    fn list_bytes(len: usize) -> (r: usize)
        requires
            Self::spec_list_bytes(len as nat) <= usize::MAX,
        ensures
            r as nat == Self::spec_list_bytes(len as nat),
    ;

    fn list_def() -> (r: u8)
        ensures
            r == Self::spec_list_def(),
    ;

    fn list_head_size() -> (r: usize)
        ensures
            r as nat == Self::spec_head_size(),
            r == 10 || r == 18,
    ;

    proof fn lemma_list_bytes_mono(a: nat, b: nat)
        requires
            a <= b,
        ensures
            Self::spec_list_bytes(a) <= Self::spec_list_bytes(b),
    ;
}

proof fn lemma_times_mono(w: nat, a: nat, b: nat)
    requires
        a <= b,
    ensures
        a * w <= b * w,
{
    assert(a * w <= b * w) by (nonlinear_arith)
        requires
            a <= b,
    ;
}

proof fn lemma_times_item(w: nat, idx: nat)
    ensures
        idx * w + w == (idx + 1) * w,
{
    assert(idx * w + w == (idx + 1) * w) by (nonlinear_arith);
}

/// Items that are scalars.
pub struct PodListWrite<T> {
    p: PhantomData<T>,
}

impl<T: Pod> ListWrite for PodListWrite<T> {
    open spec fn spec_list_bytes(len: nat) -> nat {
        len * T::spec_width()
    }

    open spec fn spec_list_def() -> u8 {
        0u8
    }

    open spec fn spec_head_size() -> nat {
        10
    }

    fn list_bytes(len: usize) -> (r: usize) {
        len * T::width()
    }

    fn list_def() -> (r: u8) {
        0u8
    }

    fn list_head_size() -> (r: usize) {
        10
    }

    proof fn lemma_list_bytes_mono(a: nat, b: nat) {
        lemma_times_mono(T::spec_width(), a, b);
    }
}

/// Items that are booleans, eight to a byte.
pub struct BoolListWrite {
    
}

impl ListWrite for BoolListWrite {
    open spec fn spec_list_bytes(len: nat) -> nat {
        (len + 7) / 8
    }

    open spec fn spec_list_def() -> u8 {
        0u8
    }

    open spec fn spec_head_size() -> nat {
        10
    }

    fn list_bytes(len: usize) -> (r: usize) {
        len / 8 + if len % 8 == 0 {
            0
        } else {
            1
        }
    }

    fn list_def() -> (r: u8) {
        0u8
    }

    fn list_head_size() -> (r: usize) {
        10
    }

    proof fn lemma_list_bytes_mono(a: nat, b: nat) {
        
    }
}

/// Items that are enumerators, one byte each; a new item is none.
pub struct EnumListWrite<T> {
    p: PhantomData<T>,
}

impl<T: Enum> ListWrite for EnumListWrite<T> {
    open spec fn spec_list_bytes(len: nat) -> nat {
        len
    }

    open spec fn spec_list_def() -> u8 {
        255u8
    }

    open spec fn spec_head_size() -> nat {
        10
    }

    fn list_bytes(len: usize) -> (r: usize) {
        len
    }

    fn list_def() -> (r: u8) {
        255u8
    }

    fn list_head_size() -> (r: usize) {
        10
    }

    proof fn lemma_list_bytes_mono(a: nat, b: nat) {
        
    }
}

/// Items that are pointers to text.
pub struct TextListWrite {
    
}

impl ListWrite for TextListWrite {
    open spec fn spec_list_bytes(len: nat) -> nat {
        len * 6
    }

    open spec fn spec_list_def() -> u8 {
        0u8
    }

    open spec fn spec_head_size() -> nat {
        10
    }

    fn list_bytes(len: usize) -> (r: usize) {
        len * 6
    }

    fn list_def() -> (r: u8) {
        0u8
    }

    fn list_head_size() -> (r: usize) {
        10
    }

    proof fn lemma_list_bytes_mono(a: nat, b: nat) {
        
    }
}

/// Items that are pointers to bytes.
pub struct BytesListWrite {
    
}

impl ListWrite for BytesListWrite {
    open spec fn spec_list_bytes(len: nat) -> nat {
        len * 6
    }

    open spec fn spec_list_def() -> u8 {
        0u8
    }

    open spec fn spec_head_size() -> nat {
        10
    }

    fn list_bytes(len: usize) -> (r: usize) {
        len * 6
    }

    fn list_def() -> (r: u8) {
        0u8
    }

    fn list_head_size() -> (r: usize) {
        10
    }

    proof fn lemma_list_bytes_mono(a: nat, b: nat) {
        
    }
}

/// Items that are pointers to tables.
pub struct TableListWrite<T> {
    p: PhantomData<T>,
}

impl<T> ListWrite for TableListWrite<T> {
    open spec fn spec_list_bytes(len: nat) -> nat {
        len * 6
    }

    open spec fn spec_list_def() -> u8 {
        0u8
    }

    open spec fn spec_head_size() -> nat {
        10
    }

    fn list_bytes(len: usize) -> (r: usize) {
        len * 6
    }

    fn list_def() -> (r: u8) {
        0u8
    }

    fn list_head_size() -> (r: usize) {
        10
    }

    proof fn lemma_list_bytes_mono(a: nat, b: nat) {
        
    }
}

/// Items that are tables, laid out back to back.
pub struct DirectTableListWrite<T> {
    p: PhantomData<T>,
}

impl<T: TableOut<Normal>> ListWrite for DirectTableListWrite<T> {
    open spec fn spec_list_bytes(len: nat) -> nat {
        len * T::spec_size()
    }

    open spec fn spec_list_def() -> u8 {
        0u8
    }

    open spec fn spec_head_size() -> nat {
        18
    }

    fn list_bytes(len: usize) -> (r: usize) {
        len * T::size()
    }

    fn list_def() -> (r: u8) {
        0u8
    }

    fn list_head_size() -> (r: usize) {
        18
    }

    proof fn lemma_list_bytes_mono(a: nat, b: nat) {
        lemma_times_mono(T::spec_size(), a, b);
    }
}

/// Items that are structs, laid out back to back.
pub struct StructListWrite<S> {
    p: PhantomData<S>,
}

impl<S: StructOut> ListWrite for StructListWrite<S> {
    open spec fn spec_list_bytes(len: nat) -> nat {
        len * S::spec_size()
    }

    open spec fn spec_list_def() -> u8 {
        0u8
    }

    open spec fn spec_head_size() -> nat {
        10
    }

    fn list_bytes(len: usize) -> (r: usize) {
        len * S::size()
    }

    fn list_def() -> (r: u8) {
        0u8
    }

    fn list_head_size() -> (r: usize) {
        10
    }

    proof fn lemma_list_bytes_mono(a: nat, b: nat) {
        lemma_times_mono(S::spec_size(), a, b);
    }
}

/// Items that are union slots of eight bytes.
pub struct UnionListWrite<F> {
    p: PhantomData<F>,
}

impl<F: Union> ListWrite for UnionListWrite<F> {
    open spec fn spec_list_bytes(len: nat) -> nat {
        len * 8
    }

    open spec fn spec_list_def() -> u8 {
        0u8
    }

    open spec fn spec_head_size() -> nat {
        10
    }

    fn list_bytes(len: usize) -> (r: usize) {
        len * 8
    }

    fn list_def() -> (r: u8) {
        0u8
    }

    fn list_head_size() -> (r: usize) {
        10
    }

    proof fn lemma_list_bytes_mono(a: nat, b: nat) {
        
    }
}

/// A list being written: a region of an arena holding a fixed number of items.
pub struct ListOut<T, P> {
    slice: ArenaSlice,
    len: usize,
    kind: PhantomData<T>,
    placement: PhantomData<P>,
}

impl<T: ListWrite, P: Placement> ListOut<T, P> {
    /// The region of the items.
    pub closed spec fn spec_slice(&self) -> ArenaSlice {
        self.slice
    }

    /// The number of items the list was allocated with.
    pub closed spec fn spec_len(&self) -> nat {
        self.len as nat
    }

    pub open spec fn wf(&self) -> bool {
        self.spec_slice().spec_length() == T::spec_list_bytes(self.spec_len())
    }

    /// Whether the list can be written through `arena`.
    pub open spec fn ready(&self, arena: &PArena) -> bool {
        &&& self.wf()
        &&& self.spec_slice().within(arena)
    }

    pub(crate) fn from_slice(slice: ArenaSlice, len: usize) -> (r: Self)
        requires
            slice.spec_length() == T::spec_list_bytes(len as nat),
        ensures
            r.spec_slice() == slice,
            r.spec_len() == len,
            r.wf(),
    {
        ListOut { slice, len, kind: PhantomData, placement: PhantomData }
    }

    /// The number of items.
    pub fn len(&self) -> (r: usize)
        ensures
            r == self.spec_len(),
    {
        self.len
    }

    pub fn is_empty(&self) -> (r: bool)
        ensures
            r == (self.spec_len() == 0),
    {
        self.len == 0
    }

    /// The region of the items.
    pub fn slice(&self) -> (r: ArenaSlice)
        ensures
            r == self.spec_slice(),
    {
        self.slice
    }
}

impl<T: Pod, P: Placement> ListOut<PodListWrite<T>, P> {
    /// Writes `v` as item `idx`.
    pub fn set(&mut self, arena: &mut PArena, idx: usize, v: T)
        requires
            old(self).ready(old(arena)),
            idx < old(self).spec_len(),
        ensures
            *final(self) == *old(self),
            final(arena).bytes() == splice(
                old(arena).bytes(),
                old(self).spec_slice().pos(idx * T::spec_width()),
                T::spec_encode(v),
            ),
            final(arena).spec_id() == old(arena).spec_id(),
            final(arena).spec_state() == old(arena).spec_state(),
            final(arena).bytes().len() == old(arena).bytes().len(),
    {
        proof {
            lemma_times_item(T::spec_width(), idx as nat);
            lemma_times_mono(T::spec_width(), idx as nat + 1, self.len as nat);
        }
        self.slice.set_pod(arena, idx * T::width(), &v);
    }
}

impl<P: Placement> ListOut<BoolListWrite, P> {
    /// Writes `v` as item `idx`.
    pub fn set(&mut self, arena: &mut PArena, idx: usize, v: bool)
        requires
            old(self).ready(old(arena)),
            idx < old(self).spec_len(),
        ensures
            *final(self) == *old(self),
            final(arena).bytes() == old(arena).bytes().update(
                old(self).spec_slice().pos((idx / 8) as int),
                with_bit(
                    old(arena).bytes()[old(self).spec_slice().pos((idx / 8) as int)],
                    (idx % 8) as u8,
                    v,
                ),
            ),
            final(arena).spec_id() == old(arena).spec_id(),
            final(arena).spec_state() == old(arena).spec_state(),
            final(arena).bytes().len() == old(arena).bytes().len(),
    {
        self.slice.set_bit(arena, idx / 8, idx % 8, v);
    }
}

impl<T: Enum, P: Placement> ListOut<EnumListWrite<T>, P> {
    /// Writes `v` as item `idx`; none is stored as `255`.
    pub fn set(&mut self, arena: &mut PArena, idx: usize, v: Option<T>)
        requires
            old(self).ready(old(arena)),
            idx < old(self).spec_len(),
        ensures
            *final(self) == *old(self),
            final(arena).bytes() == old(arena).bytes().update(
                old(self).spec_slice().pos(idx as int),
                enum_byte(v),
            ),
            final(arena).spec_id() == old(arena).spec_id(),
            final(arena).spec_state() == old(arena).spec_state(),
            final(arena).bytes().len() == old(arena).bytes().len(),
    {
        self.slice.set_enum(arena, idx, v);
    }
}

impl<P: Placement> ListOut<TextListWrite, P> {
    /// Points item `idx` to a text object, or clears it.
    pub fn set(&mut self, arena: &mut PArena, idx: usize, v: Option<&TextOut>)
        requires
            old(self).ready(old(arena)),
            idx < old(self).spec_len(),
            ArenaSlice::blob_in(TextOut::slice_of(v), old(arena)),
        ensures
            *final(self) == *old(self),
            final(arena).bytes() == splice(
                old(arena).bytes(),
                old(self).spec_slice().pos(idx * 6),
                le_bytes(ArenaSlice::blob_ref(TextOut::slice_of(v)), 6),
            ),
            final(arena).spec_id() == old(arena).spec_id(),
            final(arena).spec_state() == old(arena).spec_state(),
            final(arena).bytes().len() == old(arena).bytes().len(),
    {
        self.slice.set_text(arena, idx * 6, v)
    }

    /// Writes a text object holding `v` and points item `idx` to it.
    pub fn add(&mut self, arena: &mut PArena, idx: usize, v: &str) -> (r: TextOut)
        requires
            old(self).ready(old(arena)),
            idx < old(self).spec_len(),
            room(old(arena).bytes().len() as int, 11 + v.spec_bytes().len() as int),
        ensures
            *final(self) == *old(self),
            final(arena).bytes() == splice(
                old(arena).bytes() + header(TEXTMAGIC, v.spec_bytes().len()) + v.spec_bytes()
                    + seq![0u8],
                old(self).spec_slice().pos(idx * 6),
                le_bytes(old(arena).bytes().len(), 6),
            ),
            final(arena).grown_from(*old(arena)),
            r.slice().spec_arena() == old(arena).spec_id(),
            r.slice().spec_offset() == old(arena).bytes().len(),
    {
        self.slice.add_text(arena, idx * 6, v)
    }
}

impl<P: Placement> ListOut<BytesListWrite, P> {
    /// Points item `idx` to a bytes object, or clears it.
    pub fn set(&mut self, arena: &mut PArena, idx: usize, v: Option<&BytesOut>)
        requires
            old(self).ready(old(arena)),
            idx < old(self).spec_len(),
            ArenaSlice::blob_in(BytesOut::slice_of(v), old(arena)),
        ensures
            *final(self) == *old(self),
            final(arena).bytes() == splice(
                old(arena).bytes(),
                old(self).spec_slice().pos(idx * 6),
                le_bytes(ArenaSlice::blob_ref(BytesOut::slice_of(v)), 6),
            ),
            final(arena).spec_id() == old(arena).spec_id(),
            final(arena).spec_state() == old(arena).spec_state(),
            final(arena).bytes().len() == old(arena).bytes().len(),
    {
        self.slice.set_bytes(arena, idx * 6, v)
    }

    /// Writes a bytes object holding `v` and points item `idx` to it.
    pub fn add(&mut self, arena: &mut PArena, idx: usize, v: &[u8]) -> (r: BytesOut)
        requires
            old(self).ready(old(arena)),
            idx < old(self).spec_len(),
            room(old(arena).bytes().len() as int, 10 + v@.len() as int),
        ensures
            *final(self) == *old(self),
            final(arena).bytes() == splice(
                old(arena).bytes() + header(BYTESMAGIC, v@.len()) + v@,
                old(self).spec_slice().pos(idx * 6),
                le_bytes(old(arena).bytes().len(), 6),
            ),
            final(arena).grown_from(*old(arena)),
            r.slice().spec_arena() == old(arena).spec_id(),
            r.slice().spec_offset() == old(arena).bytes().len(),
    {
        self.slice.add_bytes(arena, idx * 6, v)
    }
}

impl<T: TableOut<Normal>, P: Placement> ListOut<TableListWrite<T>, P> {
    /// Points item `idx` to a table, or clears it.
    pub fn set(&mut self, arena: &mut PArena, idx: usize, v: Option<&T>)
        requires
            old(self).ready(old(arena)),
            idx < old(self).spec_len(),
            ArenaSlice::table_in(v, old(arena)),
        ensures
            *final(self) == *old(self),
            final(arena).bytes() == splice(
                old(arena).bytes(),
                old(self).spec_slice().pos(idx * 6),
                le_bytes(ArenaSlice::table_ref(v), 6),
            ),
            final(arena).spec_id() == old(arena).spec_id(),
            final(arena).spec_state() == old(arena).spec_state(),
            final(arena).bytes().len() == old(arena).bytes().len(),
    {
        self.slice.set_table(arena, idx * 6, v)
    }

    /// Writes a new table and points item `idx` to it.
    pub fn add(&mut self, arena: &mut PArena, idx: usize) -> (r: T)
        requires
            old(self).ready(old(arena)),
            idx < old(self).spec_len(),
            room(old(arena).bytes().len() as int, 10 + T::spec_size() as int),
        ensures
            *final(self) == *old(self),
            final(arena).bytes() == splice(
                old(arena).bytes() + header(T::spec_magic(), T::spec_size()) + T::spec_default(),
                old(self).spec_slice().pos(idx * 6),
                le_bytes(old(arena).bytes().len(), 6),
            ),
            final(arena).grown_from(*old(arena)),
            r.spec_slice().spec_arena() == old(arena).spec_id(),
            r.spec_slice().spec_offset() == old(arena).bytes().len() + 10,
            r.spec_slice().spec_length() == T::spec_size(),
    {
        self.slice.add_table::<T>(arena, idx * 6)
    }
}

impl<T: TableOut<Normal>, P: Placement> ListOut<DirectTableListWrite<T>, P> {
    /// The handle of table `idx`.
    pub fn get(&mut self, idx: usize) -> (r: T)
        requires
            old(self).wf(),
            idx < old(self).spec_len(),
            old(self).spec_slice().spec_offset() + old(self).spec_slice().spec_length() <= usize::MAX,
        ensures
            *final(self) == *old(self),
            r.spec_slice().spec_arena() == old(self).spec_slice().spec_arena(),
            r.spec_slice().spec_offset() == old(self).spec_slice().spec_offset() + idx
                * T::spec_size(),
            r.spec_slice().spec_length() == T::spec_size(),
    {
        proof {
            lemma_times_item(T::spec_size(), idx as nat);
            lemma_times_mono(T::spec_size(), idx as nat + 1, self.len as nat);
        }
        let size = T::size();
        T::new(self.slice.part(idx * size, size))
    }
}

impl<S: StructOut, P: Placement> ListOut<StructListWrite<S>, P> {
    /// The handle of struct `idx`.
    pub fn get(&mut self, idx: usize) -> (r: S)
        requires
            old(self).wf(),
            idx < old(self).spec_len(),
            old(self).spec_slice().spec_offset() + old(self).spec_slice().spec_length() <= usize::MAX,
        ensures
            *final(self) == *old(self),
            r.spec_slice().spec_arena() == old(self).spec_slice().spec_arena(),
            r.spec_slice().spec_offset() == old(self).spec_slice().spec_offset() + idx
                * S::spec_size(),
            r.spec_slice().spec_length() == S::spec_size(),
    {
        proof {
            lemma_times_item(S::spec_size(), idx as nat);
            lemma_times_mono(S::spec_size(), idx as nat + 1, self.len as nat);
        }
        let size = S::size();
        S::new(self.slice.part(idx * size, size))
    }
}

impl<F: Union, P: Placement> ListOut<UnionListWrite<F>, P> {
    /// The handle of union slot `idx`.
    pub fn get(&mut self, idx: usize) -> (r: F::Out)
        requires
            old(self).wf(),
            idx < old(self).spec_len(),
            old(self).spec_slice().spec_offset() + old(self).spec_slice().spec_length() <= usize::MAX,
        ensures
            *final(self) == *old(self),
            F::out_slice(&r).spec_arena() == old(self).spec_slice().spec_arena(),
            F::out_slice(&r).spec_offset() == old(self).spec_slice().spec_offset() + idx * 8,
            F::out_slice(&r).spec_length() == 8,
    {
        F::new_out(self.slice.part(idx * 8, 8))
    }
}

} // verus!
