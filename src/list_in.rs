//! Lists on the read side: one list type over nine item encodings, each
//! given by an item strategy.

use vstd::prelude::*;
use core::marker::PhantomData;
use crate::codec::bit_of;
use crate::error::Error;
use crate::pod::{enum_of, Enum, Pod};
use crate::reader::{Reader, StructIn, TableIn, UnionIn};

verus! {

/// How the items of a list are laid out and read.
pub trait ListRead<'a>: Sized {
    type Output;

    /// Bytes that `len` items take, given the stored per-item size.
    spec fn spec_bytes(item_size: nat, len: nat) -> nat;

    /// Whether `out` is what item `idx` of a list over `reader` reads as.
    spec fn spec_item(item_size: nat, reader: Reader<'a>, idx: nat, out: Self::Output) -> bool;

    /// Bytes that `len` items take; none where that exceeds `usize`.
    fn bytes(item_size: usize, len: usize) -> (r: Option<usize>)
        ensures
            match r {
                Some(b) => b as nat == Self::spec_bytes(item_size as nat, len as nat),
                None => Self::spec_bytes(item_size as nat, len as nat) > usize::MAX,
            },
    ;

    proof fn lemma_bytes_mono(item_size: nat, a: nat, b: nat)
        requires
            a <= b,
        ensures
            Self::spec_bytes(item_size, a) <= Self::spec_bytes(item_size, b),
    ;

    /// Reads item `idx`.
    fn get(item_size: usize, reader: &Reader<'a>, idx: usize) -> (r: Self::Output)
        requires
            reader.wf(),
            Self::spec_bytes(item_size as nat, idx as nat + 1) <= reader.region_len(),
        ensures
            Self::spec_item(item_size as nat, *reader, idx as nat, r),
    ;
}

/// `len * w`, or none where it exceeds `usize`.
fn times(len: usize, w: usize) -> (r: Option<usize>)
    ensures
        match r {
            Some(b) => b as nat == len * w,
            None => len * w > usize::MAX,
        },
{
    len.checked_mul(w)
}

proof fn lemma_times_mono(w: nat, a: nat, b: nat)
    requires
        a <= b,
    ensures
        a * w <= b * w,
{
    assert(a * w <= b * w) by (nonlinear_arith)
        requires
            a <= b,
    ;
}

proof fn lemma_times_item(w: nat, idx: nat)
    ensures
        idx * w + w == (idx + 1) * w,
{
    assert(idx * w + w == (idx + 1) * w) by (nonlinear_arith);
}

/// Items that are scalars.
pub struct PodListRead<T: Pod> {
    p: PhantomData<T>,
}

impl<'a, T: Pod> ListRead<'a> for PodListRead<T> {
    type Output = T;

    open spec fn spec_bytes(item_size: nat, len: nat) -> nat {
        len * T::spec_width()
    }

    open spec fn spec_item(item_size: nat, reader: Reader<'a>, idx: nat, out: T) -> bool {
        reader.pod_at::<T>((idx * T::spec_width()) as int) == Some(out)
    }

    fn bytes(item_size: usize, len: usize) -> (r: Option<usize>) {
        times(len, T::width())
    }

    proof fn lemma_bytes_mono(item_size: nat, a: nat, b: nat) {
        lemma_times_mono(T::spec_width(), a, b);
    }

    fn get(item_size: usize, reader: &Reader<'a>, idx: usize) -> (r: T) {
        proof {
            lemma_times_item(T::spec_width(), idx as nat);
        }
        let r = reader.get_pod::<T>(idx * T::width());
        r.unwrap()
    }
}

/// Items that are enumerators, one byte each.
pub struct EnumListRead<T: Enum> {
    p: PhantomData<T>,
}

impl<'a, T: Enum> ListRead<'a> for EnumListRead<T> {
    type Output = Option<T>;

    open spec fn spec_bytes(item_size: nat, len: nat) -> nat {
        len
    }

    open spec fn spec_item(item_size: nat, reader: Reader<'a>, idx: nat, out: Option<T>) -> bool {
        out == enum_of::<T>(reader.part()[idx as int])
    }

    fn bytes(item_size: usize, len: usize) -> (r: Option<usize>) {
        Some(len)
    }

    proof fn lemma_bytes_mono(item_size: nat, a: nat, b: nat) {
    }

    fn get(item_size: usize, reader: &Reader<'a>, idx: usize) -> (r: Option<T>) {
        reader.get_enum::<T>(idx, 255)
    }
}

/// Items that are structs, laid out back to back.
pub struct StructListRead<S> {
    p: PhantomData<S>,
}

impl<'a, S: StructIn<'a>> ListRead<'a> for StructListRead<S> {
    type Output = S;

    open spec fn spec_bytes(item_size: nat, len: nat) -> nat {
        len * S::spec_size()
    }

    open spec fn spec_item(item_size: nat, reader: Reader<'a>, idx: nat, out: S) -> bool {
        out.spec_reader() == reader.struct_reader((idx * S::spec_size()) as int, S::spec_size() as int)
    }

    fn bytes(item_size: usize, len: usize) -> (r: Option<usize>) {
        times(len, S::size())
    }

    proof fn lemma_bytes_mono(item_size: nat, a: nat, b: nat) {
        lemma_times_mono(S::spec_size(), a, b);
    }

    fn get(item_size: usize, reader: &Reader<'a>, idx: usize) -> (r: S) {
        proof {
            lemma_times_item(S::spec_size(), idx as nat);
        }
        reader.get_struct::<S>(idx * S::size())
    }
}

/// Items that are pointers to text.
pub struct TextListRead {}

impl<'a> ListRead<'a> for TextListRead {
    type Output = Result<Option<&'a str>, Error>;

    open spec fn spec_bytes(item_size: nat, len: nat) -> nat {
        len * 6
    }

    open spec fn spec_item(
        item_size: nat,
        reader: Reader<'a>,
        idx: nat,
        out: Result<Option<&'a str>, Error>,
    ) -> bool {
        reader.text_field((idx * 6) as int, out)
    }

    fn bytes(item_size: usize, len: usize) -> (r: Option<usize>) {
        times(len, 6)
    }

    proof fn lemma_bytes_mono(item_size: nat, a: nat, b: nat) {
    }

    fn get(item_size: usize, reader: &Reader<'a>, idx: usize) -> (r: Result<Option<&'a str>, Error>) {
        reader.get_text(idx * 6)
    }
}

/// Items that are pointers to bytes.
pub struct BytesListRead {}

impl<'a> ListRead<'a> for BytesListRead {
    type Output = Result<Option<&'a [u8]>, Error>;

    open spec fn spec_bytes(item_size: nat, len: nat) -> nat {
        len * 6
    }

    open spec fn spec_item(
        item_size: nat,
        reader: Reader<'a>,
        idx: nat,
        out: Result<Option<&'a [u8]>, Error>,
    ) -> bool {
        reader.blob_field((idx * 6) as int, out)
    }

    fn bytes(item_size: usize, len: usize) -> (r: Option<usize>) {
        times(len, 6)
    }

    proof fn lemma_bytes_mono(item_size: nat, a: nat, b: nat) {
    }

    fn get(item_size: usize, reader: &Reader<'a>, idx: usize) -> (r: Result<Option<&'a [u8]>, Error>) {
        reader.get_bytes(idx * 6)
    }
}

/// Items that are pointers to tables.
pub struct TableListRead<T> {
    p: PhantomData<T>,
}

impl<'a, T: TableIn<'a>> ListRead<'a> for TableListRead<T> {
    type Output = Result<Option<T>, Error>;

    open spec fn spec_bytes(item_size: nat, len: nat) -> nat {
        len * 6
    }

    open spec fn spec_item(
        item_size: nat,
        reader: Reader<'a>,
        idx: nat,
        out: Result<Option<T>, Error>,
    ) -> bool {
        reader.table_field::<T>((idx * 6) as int, out)
    }

    fn bytes(item_size: usize, len: usize) -> (r: Option<usize>) {
        times(len, 6)
    }

    proof fn lemma_bytes_mono(item_size: nat, a: nat, b: nat) {
    }

    fn get(item_size: usize, reader: &Reader<'a>, idx: usize) -> (r: Result<Option<T>, Error>) {
        reader.get_table::<T>(idx * 6)
    }
}

/// Items that are tables of a stored size, laid out back to back.
pub struct DirectTableListRead<T> {
    p: PhantomData<T>,
}

impl<'a, T: TableIn<'a>> ListRead<'a> for DirectTableListRead<T> {
    type Output = Result<T, Error>;

    open spec fn spec_bytes(item_size: nat, len: nat) -> nat {
        len * item_size
    }

    open spec fn spec_item(item_size: nat, reader: Reader<'a>, idx: nat, out: Result<T, Error>) -> bool {
        out matches Ok(t) && t.spec_reader() == reader.at(
            (reader.start() + idx * item_size) as int,
            item_size as int,
        )
    }

    fn bytes(item_size: usize, len: usize) -> (r: Option<usize>) {
        times(len, item_size)
    }

    proof fn lemma_bytes_mono(item_size: nat, a: nat, b: nat) {
        lemma_times_mono(item_size, a, b);
    }

    fn get(item_size: usize, reader: &Reader<'a>, idx: usize) -> (r: Result<T, Error>) {
        proof {
            lemma_times_item(item_size as nat, idx as nat);
            assert(idx * item_size == item_size * idx) by (nonlinear_arith);
        }
        reader.get_direct_table(item_size * idx, item_size)
    }
}

/// Items that are booleans, eight to a byte.
pub struct BoolListRead {}

impl<'a> ListRead<'a> for BoolListRead {
    type Output = bool;

    open spec fn spec_bytes(item_size: nat, len: nat) -> nat {
        (len + 7) / 8
    }

    open spec fn spec_item(item_size: nat, reader: Reader<'a>, idx: nat, out: bool) -> bool {
        out == bit_of(reader.part()[(idx / 8) as int], (idx % 8) as u8)
    }

    fn bytes(item_size: usize, len: usize) -> (r: Option<usize>) {
        Some(len / 8 + if len % 8 == 0 {
            0
        } else {
            1
        })
    }

    proof fn lemma_bytes_mono(item_size: nat, a: nat, b: nat) {
    }

    fn get(item_size: usize, reader: &Reader<'a>, idx: usize) -> (r: bool) {
        reader.get_bit(idx / 8, idx % 8)
    }
}

/// Items that are unions: a two-byte discriminant and a six-byte pointer each.
pub struct UnionListRead<U> {
    p: PhantomData<U>,
}

impl<'a, U: UnionIn<'a>> ListRead<'a> for UnionListRead<U> {
    type Output = Result<U, Error>;

    open spec fn spec_bytes(item_size: nat, len: nat) -> nat {
        len * 8
    }

    open spec fn spec_item(item_size: nat, reader: Reader<'a>, idx: nat, out: Result<U, Error>) -> bool {
        reader.union_field::<U>((idx * 8) as int, out)
    }

    fn bytes(item_size: usize, len: usize) -> (r: Option<usize>) {
        times(len, 8)
    }

    proof fn lemma_bytes_mono(item_size: nat, a: nat, b: nat) {
    }

    fn get(item_size: usize, reader: &Reader<'a>, idx: usize) -> (r: Result<U, Error>) {
        reader.get_union::<U>(idx * 8)
    }
}

/// A list as read from a message: its items, resolved one at a time.
pub struct ListIn<'a, A> {
    reader: Reader<'a>,
    len: usize,
    item_size: usize,
    p: PhantomData<A>,
}

impl<'a, A: ListRead<'a>> ListIn<'a, A> {
    /// The region of the list's items.
    pub closed spec fn spec_reader(&self) -> Reader<'a> {
        self.reader
    }

    /// The number of items that the list's header gives.
    pub closed spec fn spec_len(&self) -> nat {
        self.len as nat
    }

    /// The per-item size that the list's header gives (tables laid out back
    /// to back), else zero.
    pub closed spec fn spec_item_size(&self) -> nat {
        self.item_size as nat
    }

    pub open spec fn wf(&self) -> bool {
        &&& self.spec_reader().wf()
        &&& A::spec_bytes(self.spec_item_size(), self.spec_len()) == self.spec_reader().region_len()
    }

    /// What item `idx` reads as.
    pub open spec fn item(&self, idx: nat, out: A::Output) -> bool {
        A::spec_item(self.spec_item_size(), self.spec_reader(), idx, out)
    }

    pub(crate) fn from_parts(reader: Reader<'a>, len: usize, item_size: usize) -> (r: Self)
        requires
            reader.wf(),
            A::spec_bytes(item_size as nat, len as nat) == reader.region_len(),
        ensures
            r.spec_reader() == reader,
            r.spec_len() == len,
            r.spec_item_size() == item_size,
            r.wf(),
    {
        ListIn { reader, len, item_size, p: PhantomData }
    }

    /// The number of items.
    pub fn len(&self) -> (r: usize)
        ensures
            r == self.spec_len(),
    {
        self.len
    }

    pub fn is_empty(&self) -> (r: bool)
        ensures
            r == (self.spec_len() == 0),
    {
        self.len == 0
    }

    /// Item `idx`; the index must be below the length.
    pub fn get(&self, idx: usize) -> (r: A::Output)
        requires
            self.wf(),
            idx < self.spec_len(),
        ensures
            self.item(idx as nat, r),
    {
        proof {
            A::lemma_bytes_mono(self.item_size as nat, idx as nat + 1, self.len as nat);
        }
        A::get(self.item_size, &self.reader, idx)
    }

    /// The items in order, from the first.
    pub fn iter(&self) -> (r: ListIter<'a, A>)
        ensures
            r.spec_reader() == self.spec_reader(),
            r.spec_len() == self.spec_len(),
            r.spec_item_size() == self.spec_item_size(),
            r.spec_next() == 0,
    {
        ListIter { reader: self.reader, len: self.len, item_size: self.item_size, idx: 0, p: PhantomData }
    }
}

/// The items of a list in index order.
pub struct ListIter<'a, A> {
    reader: Reader<'a>,
    len: usize,
    item_size: usize,
    idx: usize,
    p: PhantomData<A>,
}

impl<'a, A: ListRead<'a>> ListIter<'a, A> {
    pub closed spec fn spec_reader(&self) -> Reader<'a> {
        self.reader
    }

    pub closed spec fn spec_len(&self) -> nat {
        self.len as nat
    }

    pub closed spec fn spec_item_size(&self) -> nat {
        self.item_size as nat
    }

    /// Index of the item that comes next.
    pub closed spec fn spec_next(&self) -> nat {
        self.idx as nat
    }

    pub open spec fn wf(&self) -> bool {
        &&& self.spec_reader().wf()
        &&& A::spec_bytes(self.spec_item_size(), self.spec_len()) == self.spec_reader().region_len()
    }

    /// The next item, or none after the last.
    pub fn next(&mut self) -> (r: Option<A::Output>)
        requires
            old(self).wf(),
        ensures
            final(self).wf(),
            final(self).spec_reader() == old(self).spec_reader(),
            final(self).spec_len() == old(self).spec_len(),
            final(self).spec_item_size() == old(self).spec_item_size(),
            old(self).spec_next() >= old(self).spec_len() ==> (r is None
                && final(self).spec_next() == old(self).spec_next()),
            old(self).spec_next() < old(self).spec_len() ==> (r matches Some(v) && A::spec_item(
                old(self).spec_item_size(),
                old(self).spec_reader(),
                old(self).spec_next(),
                v,
            ) && final(self).spec_next() == old(self).spec_next() + 1),
    {
        if self.idx >= self.len {
            return None;
        }
        proof {
            A::lemma_bytes_mono(self.item_size as nat, self.idx as nat + 1, self.len as nat);
        }
        let ans = A::get(self.item_size, &self.reader, self.idx);
        self.idx = self.idx + 1;
        Some(ans)
    }

    /// The number of items left, as a lower and an upper bound.
    pub fn size_hint(&self) -> (r: (usize, Option<usize>))
        ensures
            self.spec_next() <= self.spec_len() ==> r == (
                (self.spec_len() - self.spec_next()) as usize,
                Some((self.spec_len() - self.spec_next()) as usize),
            ),
    {
        let s = if self.idx <= self.len {
            self.len - self.idx
        } else {
            0
        };
        (s, Some(s))
    }
}

} // verus!
