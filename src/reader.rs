//! The read side: a view of a received message that resolves and checks
//! every reference before handing out a typed value.

use vstd::prelude::*;
use vstd::utf8::valid_utf8;
use vstd::string::StringSliceAdditionalSpecFns;
use crate::codec::{
    bit_of, get_bit_of, le_value, lemma_le_value_bound, lemma_pow256_values, read_le, BYTESMAGIC,
    DIRECTLISTMAGIC, HEADER_SIZE, LISTMAGIC, TEXTMAGIC,
};
use crate::list_in::{DirectTableListRead, ListIn, ListRead};
use crate::error::Error;
use crate::pod::{enum_of, to_enum, Enum, Pod};

verus! {

#[verifier::external_type_specification]
#[verifier::external_body]
pub struct ExUtf8Error(std::str::Utf8Error);

/// Relies on std::str::from_utf8: it succeeds exactly on valid UTF-8, and the
/// text it returns consists of the given bytes.
#[verifier::external_body]
fn str_from_utf8<'a>(b: &'a [u8]) -> (r: Result<&'a str, std::str::Utf8Error>)
    ensures
        r is Ok <==> valid_utf8(b@),
        r matches Ok(s) ==> s.spec_bytes() == b@,
{
    std::str::from_utf8(b)
}

/// `a + b`, or `usize::MAX` where that does not fit.
pub open spec fn sat_add(a: int, b: int) -> usize {
    if a + b > usize::MAX {
        usize::MAX
    } else {
        (a + b) as usize
    }
}

/// A read-only view of a message: the whole buffer, and the region of the
/// object being read.
#[derive(Clone, Copy)]
pub struct Reader<'a> {
    full: &'a [u8],
    start: usize,
    len: usize,
}

/// A table type as the reader sees it: built over the region of its body.
pub trait TableIn<'a>: Sized {
    spec fn spec_magic() -> u32;

    /// The reader the table was built over.
    spec fn spec_reader(&self) -> Reader<'a>;

    /// The type tag that the table's header carries.
    fn magic() -> (r: u32)
        ensures
            r == Self::spec_magic(),
    ;

    fn new(reader: Reader<'a>) -> (r: Self)
        ensures
            r.spec_reader() == reader,
    ;
}

/// A struct type as the reader sees it: a fixed-size window of bytes.
pub trait StructIn<'a>: Sized {
    spec fn spec_size() -> nat;

    /// The reader the struct was built over.
    spec fn spec_reader(&self) -> Reader<'a>;

    fn size() -> (r: usize)
        ensures
            r as nat == Self::spec_size(),
    ;

    fn new(reader: Reader<'a>) -> (r: Self)
        ensures
            r.spec_reader() == reader,
    ;
}

/// A union type as the reader sees it, built from its discriminant and the
/// object its payload refers to.
pub trait UnionIn<'a>: Sized {
    /// Whether `r` is what `new` gives for a discriminant, an optional type
    /// tag and a region.
    spec fn spec_new(
        t: u16,
        magic: Option<u32>,
        offset: usize,
        size: usize,
        reader: Reader<'a>,
        r: Result<Self, Error>,
    ) -> bool;

    fn new(t: u16, magic: Option<u32>, offset: usize, size: usize, reader: &Reader<'a>) -> (r:
        Result<Self, Error>)
        requires
            reader.wf(),
        ensures
            Self::spec_new(t, magic, offset, size, *reader, r),
    ;
}

impl<'a> Reader<'a> {
    /// The whole message.
    pub closed spec fn data(&self) -> Seq<u8> {
        self.full@
    }

    /// Where the current object's region starts.
    pub closed spec fn start(&self) -> nat {
        self.start as nat
    }

    /// The length of the current object's region.
    pub closed spec fn region_len(&self) -> nat {
        self.len as nat
    }

    pub open spec fn wf(&self) -> bool {
        &&& self.start() + self.region_len() <= self.data().len()
        &&& self.data().len() <= usize::MAX
    }

    /// The bytes of the current object's region.
    pub open spec fn part(&self) -> Seq<u8> {
        self.data().subrange(self.start() as int, (self.start() + self.region_len()) as int)
    }

    /// A reader over `len` bytes from `start` of the same message.
    pub open spec fn at(&self, start: int, len: int) -> Reader<'a> {
        Self::spec_at(*self, start, len)
    }

    pub closed spec fn spec_at(r: Reader<'a>, start: int, len: int) -> Reader<'a> {
        Reader { full: r.full, start: start as usize, len: len as usize }
    }

    pub proof fn lemma_at(&self, start: int, len: int)
        requires
            0 <= start,
            0 <= len,
            start + len <= self.data().len(),
            self.wf(),
        ensures
            self.at(start, len).data() == self.data(),
            self.at(start, len).start() == start,
            self.at(start, len).region_len() == len,
            self.at(start, len).wf(),
    {
    }

    /// A reader over the first `len` bytes of `data`.
    pub fn new(data: &'a [u8], len: usize) -> (r: Reader<'a>)
        requires
            len <= data@.len(),
        ensures
            r.data() == data@,
            r.start() == 0,
            r.region_len() == len,
            r.wf(),
    {
        let _ = data.len();
        Reader { full: data, start: 0, len }
    }

    fn sub(&self, start: usize, len: usize) -> (r: Reader<'a>)
        requires
            self.wf(),
            start + len <= self.data().len(),
        ensures
            r == self.at(start as int, len as int),
            r.wf(),
    {
        Reader { full: self.full, start, len }
    }

    /// The `size` bytes at `offset` of the region, where they are all in it.
    pub open spec fn field(&self, offset: int, size: int) -> Option<Seq<u8>> {
        if offset + size <= self.region_len() {
            Some(self.part().subrange(offset, offset + size))
        } else {
            None
        }
    }

    fn slice(&self, offset: usize, size: usize) -> (r: Option<&'a [u8]>)
        requires
            self.wf(),
        ensures
            match self.field(offset as int, size as int) {
                Some(b) => r matches Some(s) && s@ == b,
                None => r is None,
            },
    {
        if size > self.len || offset > self.len - size {
            None
        } else {
            let s = &self.full[self.start + offset..self.start + offset + size];
            assert(s@ =~= self.part().subrange(offset as int, offset + size));
            Some(s)
        }
    }

    /// The byte at `offset` of the region.
    pub open spec fn u8_at(&self, offset: int) -> Option<u8> {
        if 0 <= offset < self.region_len() {
            Some(self.part()[offset])
        } else {
            None
        }
    }

    /// The byte at `offset` of the region, or none past its end.
    pub fn get_u8(&self, offset: usize) -> (r: Option<u8>)
        requires
            self.wf(),
        ensures
            r == self.u8_at(offset as int),
    {
        if offset < self.len {
            Some(self.full[self.start + offset])
        } else {
            None
        }
    }

    /// Bit `bit` of the byte at `offset`; false past the region's end.
    pub fn get_bit(&self, offset: usize, bit: usize) -> (r: bool)
        requires
            self.wf(),
            bit < 8,
        ensures
            r == bit_of(
                match self.u8_at(offset as int) {
                    Some(b) => b,
                    None => 0,
                },
                bit as u8,
            ),
            self.u8_at(offset as int) is None ==> !r,
    {
        match self.get_u8(offset) {
            Some(b) => get_bit_of(b, bit as u8),
            None => {
                assert(!bit_of(0u8, bit as u8)) by (bit_vector)
                    requires
                        bit < 8,
                ;
                get_bit_of(0, bit as u8)
            },
        }
    }

    /// The 48-bit number at `offset` of the region.
    pub open spec fn u48_at(&self, offset: int) -> Option<nat> {
        match self.field(offset, 6) {
            Some(b) => Some(le_value(b)),
            None => None,
        }
    }

    /// The 48-bit number at `offset`, or none past the region's end.
    pub fn get_48(&self, offset: usize) -> (r: Option<u64>)
        requires
            self.wf(),
        ensures
            match self.u48_at(offset as int) {
                Some(v) => r == Some(v as u64) && v < 0x1_0000_0000_0000,
                None => r is None,
            },
    {
        match self.slice(offset, 6) {
            Some(s) => {
                proof {
                    lemma_le_value_bound(s@);
                    lemma_pow256_values();
                    assert(s@.subrange(0, 6) =~= s@);
                }
                Some(read_le(s, 0, 6))
            },
            None => None,
        }
    }

    /// The 48-bit number at `offset` as a `usize`.
    pub open spec fn u48_usize_at(&self, offset: int) -> Result<Option<usize>, Error> {
        match self.u48_at(offset) {
            Some(v) => if v <= usize::MAX {
                Ok(Some(v as usize))
            } else {
                Err(Error::Overflow())
            },
            None => Ok(None),
        }
    }

    /// The 48-bit number at `offset` as a `usize`, or none past the region's end.
    pub fn get_48_usize(&self, offset: usize) -> (r: Result<Option<usize>, Error>)
        requires
            self.wf(),
        ensures
            r == self.u48_usize_at(offset as int),
    {
        match self.get_48(offset) {
            Some(v) => if v <= usize::MAX as u64 {
                Ok(Some(v as usize))
            } else {
                Err(Error::Overflow())
            },
            None => Ok(None),
        }
    }

    /// The scalar at `offset` of the region.
    pub open spec fn pod_at<T: Pod>(&self, offset: int) -> Option<T> {
        match self.field(offset, T::spec_width() as int) {
            Some(b) => Some(T::spec_decode(b)),
            None => None,
        }
    }

    /// The scalar at `offset`, or none where it does not fit in the region.
    pub fn get_pod<T: Pod>(&self, offset: usize) -> (r: Option<T>)
        requires
            self.wf(),
        ensures
            r == self.pod_at::<T>(offset as int),
    {
        match self.slice(offset, T::width()) {
            Some(s) => {
                assert(s@.subrange(0, T::spec_width() as int) =~= s@);
                Some(T::decode(s, 0))
            },
            None => None,
        }
    }

    /// The enumerator at `offset`; `default` stands for the byte past the
    /// region's end.
    pub fn get_enum<T: Enum>(&self, offset: usize, default: u8) -> (r: Option<T>)
        requires
            self.wf(),
        ensures
            r == enum_of::<T>(
                match self.u8_at(offset as int) {
                    Some(b) => b,
                    None => default,
                },
            ),
    {
        match self.get_u8(offset) {
            Some(v) => to_enum(v),
            None => to_enum(default),
        }
    }

    /// The region of a struct of `size` bytes at `offset`: empty where it does
    /// not fit, so that every field reads as zero.
    pub open spec fn struct_reader(&self, offset: int, size: int) -> Reader<'a> {
        if offset + size <= self.region_len() {
            self.at(self.start() + offset, size)
        } else {
            self.at(0, 0)
        }
    }

    /// The struct at `offset` of the region.
    pub fn get_struct<S: StructIn<'a>>(&self, offset: usize) -> (r: S)
        requires
            self.wf(),
        ensures
            r.spec_reader() == self.struct_reader(offset as int, S::spec_size() as int),
            r.spec_reader().wf(),
    {
        let size = S::size();
        if size > self.len || offset > self.len - size {
            S::new(self.sub(0, 0))
        } else {
            S::new(self.sub(self.start + offset, size))
        }
    }

    /// What the pointer field at `offset` refers to: the body's position, the
    /// type tag and the size field of the object's header.
    pub open spec fn ptr_at(&self, offset: int) -> Result<Option<(usize, u32, usize)>, Error> {
        match self.u48_usize_at(offset) {
            Err(e) => Err(e),
            Ok(None) => Ok(None),
            Ok(Some(o)) => if o == 0 {
                Ok(None)
            } else if self.data().len() < o + 10 {
                Err(Error::InvalidPointer(sat_add(o as int, 10), self.data().len() as usize))
            } else {
                let size = le_value(self.data().subrange(o + 4, o + 10));
                if size > usize::MAX {
                    Err(Error::Overflow())
                } else {
                    Ok(
                        Some(
                            (
                                (o + 10) as usize,
                                le_value(self.data().subrange(o as int, o + 4)) as u32,
                                size as usize,
                            ),
                        ),
                    )
                }
            },
        }
    }

    /// Resolves the pointer field at `offset`; zero, or a field past the
    /// region's end, is none.
    pub fn get_ptr(&self, offset: usize) -> (r: Result<Option<(usize, u32, usize)>, Error>)
        requires
            self.wf(),
        ensures
            r == self.ptr_at(offset as int),
    {
        let o = match self.get_48_usize(offset) {
            Err(e) => return Err(e),
            Ok(None) => return Ok(None),
            Ok(Some(v)) => v,
        };
        if o == 0 {
            return Ok(None);
        }
        if self.full.len() < HEADER_SIZE || o > self.full.len() - HEADER_SIZE {
            return Err(Error::InvalidPointer(o.saturating_add(HEADER_SIZE), self.full.len()));
        }
        proof {
            lemma_le_value_bound(self.data().subrange(o as int, o + 4));
            lemma_le_value_bound(self.data().subrange(o + 4, o + 10));
            lemma_pow256_values();
        }
        let magic = read_le(self.full, o, 4) as u32;
        let size = read_le(self.full, o + 4, 6);
        if size > usize::MAX as u64 {
            return Err(Error::Overflow());
        }
        Ok(Some((o + HEADER_SIZE, magic, size as usize)))
    }

    /// What the in-place field at `offset` refers to: the bytes right after
    /// the region, of the size that the field holds.
    pub open spec fn ptr_inplace_at(&self, offset: int) -> Result<Option<(usize, usize)>, Error> {
        match self.u48_usize_at(offset) {
            Err(e) => Err(e),
            Ok(None) => Ok(None),
            Ok(Some(size)) => Ok(Some(((self.start() + self.region_len()) as usize, size))),
        }
    }

    /// Resolves the in-place field at `offset`.
    pub fn get_ptr_inplace(&self, offset: usize) -> (r: Result<Option<(usize, usize)>, Error>)
        requires
            self.wf(),
        ensures
            r == self.ptr_inplace_at(offset as int),
    {
        let size = match self.get_48_usize(offset) {
            Err(e) => return Err(e),
            Ok(None) => return Ok(None),
            Ok(Some(v)) => v,
        };
        Ok(Some((self.start + self.len, size)))
    }

    /// The check that every resolved object goes through: the tag, where one
    /// is given, is `expected`, and `size` bytes from `offset` are in the buffer.
    pub open spec fn check_object(
        &self,
        magic: Option<u32>,
        expected: u32,
        offset: int,
        size: int,
    ) -> Result<(), Error> {
        if magic matches Some(m) && m != expected {
            Err(Error::BadMagic(magic->0, expected))
        } else if offset + size > self.data().len() {
            Err(Error::InvalidPointer(sat_add(offset, size), self.data().len() as usize))
        } else {
            Ok(())
        }
    }

    fn check(&self, magic: Option<u32>, expected: u32, offset: usize, size: usize) -> (r: Result<
        (),
        Error,
    >)
        requires
            self.wf(),
        ensures
            r == self.check_object(magic, expected, offset as int, size as int),
    {
        if let Some(m) = magic {
            if m != expected {
                return Err(Error::BadMagic(m, expected));
            }
        }
        if size > self.full.len() || offset > self.full.len() - size {
            return Err(Error::InvalidPointer(offset.saturating_add(size), self.full.len()));
        }
        Ok(())
    }

    /// The table whose body is the `size` bytes at `offset` of the buffer.
    pub fn get_table_union<T: TableIn<'a>>(&self, magic: Option<u32>, offset: usize, size: usize) -> (r:
        Result<T, Error>)
        requires
            self.wf(),
        ensures
            match self.check_object(magic, T::spec_magic(), offset as int, size as int) {
                Err(e) => r == Err::<T, Error>(e),
                Ok(_) => r matches Ok(t) && t.spec_reader() == self.at(offset as int, size as int)
                    && t.spec_reader().wf(),
            },
    {
        match self.check(magic, T::magic(), offset, size) {
            Err(e) => Err(e),
            Ok(_) => Ok(T::new(self.sub(offset, size))),
        }
    }

    /// The table of `size` bytes at `offset` of the region, one item of a list
    /// of tables laid out back to back.
    pub fn get_direct_table<T: TableIn<'a>>(&self, offset: usize, size: usize) -> (r: Result<T, Error>)
        requires
            self.wf(),
            offset + size <= self.region_len(),
        ensures
            r matches Ok(t) && t.spec_reader() == self.at(self.start() + offset, size as int)
                && t.spec_reader().wf(),
    {
        Ok(T::new(self.sub(self.start + offset, size)))
    }

    /// What the table pointer field at `offset` reads as.
    pub open spec fn table_field<T: TableIn<'a>>(&self, offset: int, r: Result<Option<T>, Error>) -> bool {
            match self.ptr_at(offset) {
                Err(e) => r == Err::<Option<T>, Error>(e),
                Ok(None) => r == Ok::<Option<T>, Error>(None),
                Ok(Some((o, m, s))) => match self.check_object(
                    Some(m),
                    T::spec_magic(),
                    o as int,
                    s as int,
                ) {
                    Err(e) => r == Err::<Option<T>, Error>(e),
                    Ok(_) => r matches Ok(Some(t)) && t.spec_reader() == self.at(o as int, s as int)
                        && t.spec_reader().wf(),
                },
            }
    }

    /// The table that the pointer field at `offset` refers to.
    pub fn get_table<T: TableIn<'a>>(&self, offset: usize) -> (r: Result<Option<T>, Error>)
        requires
            self.wf(),
        ensures
            self.table_field(offset as int, r),
    {
        match self.get_ptr(offset) {
            Err(e) => Err(e),
            Ok(None) => Ok(None),
            Ok(Some((o, m, s))) => match self.get_table_union::<T>(Some(m), o, s) {
                Err(e) => Err(e),
                Ok(t) => Ok(Some(t)),
            },
        }
    }

    /// The table stored in place right after the region.
    pub fn get_table_inplace<T: TableIn<'a>>(&self, offset: usize) -> (r: Result<Option<T>, Error>)
        requires
            self.wf(),
        ensures
            match self.ptr_inplace_at(offset as int) {
                Err(e) => r == Err::<Option<T>, Error>(e),
                Ok(None) => r == Ok::<Option<T>, Error>(None),
                Ok(Some((o, s))) => match self.check_object(
                    None,
                    T::spec_magic(),
                    o as int,
                    s as int,
                ) {
                    Err(e) => r == Err::<Option<T>, Error>(e),
                    Ok(_) => r matches Ok(Some(t)) && t.spec_reader() == self.at(o as int, s as int)
                        && t.spec_reader().wf(),
                },
            },
    {
        match self.get_ptr_inplace(offset) {
            Err(e) => Err(e),
            Ok(None) => Ok(None),
            Ok(Some((o, s))) => match self.get_table_union::<T>(None, o, s) {
                Err(e) => Err(e),
                Ok(t) => Ok(Some(t)),
            },
        }
    }
    /// The `size` bytes at `offset` of the whole buffer.
    pub open spec fn bytes_at(&self, offset: int, size: int) -> Seq<u8> {
        self.data().subrange(offset, offset + size)
    }

    /// What a text object of `size` bytes at `offset` reads as: checked as
    /// any object, then as UTF-8.
    pub open spec fn text_ok(
        &self,
        magic: Option<u32>,
        offset: int,
        size: int,
        r: Result<&'a str, Error>,
    ) -> bool {
        match self.check_object(magic, TEXTMAGIC, offset, size) {
            Err(e) => r == Err::<&'a str, Error>(e),
            Ok(_) => if valid_utf8(self.bytes_at(offset, size)) {
                r matches Ok(s) && s.spec_bytes() == self.bytes_at(offset, size)
            } else {
                r == Err::<&'a str, Error>(Error::Utf8())
            },
        }
    }

    /// The text whose body is the `size` bytes at `offset` of the buffer.
    pub fn get_text_union(&self, magic: Option<u32>, offset: usize, size: usize) -> (r: Result<
        &'a str,
        Error,
    >)
        requires
            self.wf(),
        ensures
            self.text_ok(magic, offset as int, size as int, r),
    {
        match self.check(magic, TEXTMAGIC, offset, size) {
            Err(e) => Err(e),
            Ok(_) => match str_from_utf8(&self.full[offset..offset + size]) {
                Ok(s) => Ok(s),
                Err(_) => Err(Error::Utf8()),
            },
        }
    }

    /// What the text pointer field at `offset` reads as.
    pub open spec fn text_field(&self, offset: int, r: Result<Option<&'a str>, Error>) -> bool {
        match self.ptr_at(offset) {
            Err(e) => r == Err::<Option<&'a str>, Error>(e),
            Ok(None) => r == Ok::<Option<&'a str>, Error>(None),
            Ok(Some((o, m, s))) => present(r) matches Some(x) && self.text_ok(Some(m), o as int, s as int, x),
        }
    }

    /// The text that the pointer field at `offset` refers to.
    pub fn get_text(&self, offset: usize) -> (r: Result<Option<&'a str>, Error>)
        requires
            self.wf(),
        ensures
            self.text_field(offset as int, r),
    {
        match self.get_ptr(offset) {
            Err(e) => Err(e),
            Ok(None) => Ok(None),
            Ok(Some((o, m, s))) => match self.get_text_union(Some(m), o, s) {
                Err(e) => Err(e),
                Ok(t) => Ok(Some(t)),
            },
        }
    }

    /// The text stored in place right after the region.
    pub fn get_text_inplace(&self, offset: usize) -> (r: Result<Option<&'a str>, Error>)
        requires
            self.wf(),
        ensures
            match self.ptr_inplace_at(offset as int) {
                Err(e) => r == Err::<Option<&'a str>, Error>(e),
                Ok(None) => r == Ok::<Option<&'a str>, Error>(None),
                Ok(Some((o, s))) => present(r) matches Some(x) && self.text_ok(None, o as int, s as int, x),
            },
    {
        match self.get_ptr_inplace(offset) {
            Err(e) => Err(e),
            Ok(None) => Ok(None),
            Ok(Some((o, s))) => match self.get_text_union(None, o, s) {
                Err(e) => Err(e),
                Ok(t) => Ok(Some(t)),
            },
        }
    }

    /// What a bytes object of `size` bytes at `offset` reads as.
    pub open spec fn blob_ok(
        &self,
        magic: Option<u32>,
        offset: int,
        size: int,
        r: Result<&'a [u8], Error>,
    ) -> bool {
        match self.check_object(magic, BYTESMAGIC, offset, size) {
            Err(e) => r == Err::<&'a [u8], Error>(e),
            Ok(_) => r matches Ok(b) && b@ == self.bytes_at(offset, size),
        }
    }

    /// The bytes whose body is the `size` bytes at `offset` of the buffer.
    pub fn get_bytes_union(&self, magic: Option<u32>, offset: usize, size: usize) -> (r: Result<
        &'a [u8],
        Error,
    >)
        requires
            self.wf(),
        ensures
            self.blob_ok(magic, offset as int, size as int, r),
    {
        match self.check(magic, BYTESMAGIC, offset, size) {
            Err(e) => Err(e),
            Ok(_) => Ok(&self.full[offset..offset + size]),
        }
    }

    /// What the bytes pointer field at `offset` reads as.
    pub open spec fn blob_field(&self, offset: int, r: Result<Option<&'a [u8]>, Error>) -> bool {
        match self.ptr_at(offset) {
            Err(e) => r == Err::<Option<&'a [u8]>, Error>(e),
            Ok(None) => r == Ok::<Option<&'a [u8]>, Error>(None),
            Ok(Some((o, m, s))) => present(r) matches Some(x) && self.blob_ok(Some(m), o as int, s as int, x),
        }
    }

    /// The bytes that the pointer field at `offset` refers to.
    pub fn get_bytes(&self, offset: usize) -> (r: Result<Option<&'a [u8]>, Error>)
        requires
            self.wf(),
        ensures
            self.blob_field(offset as int, r),
    {
        match self.get_ptr(offset) {
            Err(e) => Err(e),
            Ok(None) => Ok(None),
            Ok(Some((o, m, s))) => match self.get_bytes_union(Some(m), o, s) {
                Err(e) => Err(e),
                Ok(t) => Ok(Some(t)),
            },
        }
    }

    /// The bytes stored in place right after the region.
    pub fn get_bytes_inplace(&self, offset: usize) -> (r: Result<Option<&'a [u8]>, Error>)
        requires
            self.wf(),
        ensures
            match self.ptr_inplace_at(offset as int) {
                Err(e) => r == Err::<Option<&'a [u8]>, Error>(e),
                Ok(None) => r == Ok::<Option<&'a [u8]>, Error>(None),
                Ok(Some((o, s))) => present(r) matches Some(x) && self.blob_ok(None, o as int, s as int, x),
            },
    {
        match self.get_ptr_inplace(offset) {
            Err(e) => Err(e),
            Ok(None) => Ok(None),
            Ok(Some((o, s))) => match self.get_bytes_union(None, o, s) {
                Err(e) => Err(e),
                Ok(t) => Ok(Some(t)),
            },
        }
    }

    /// What a list of `size` items at `offset` of the buffer reads as.
    pub open spec fn list_ok<A: ListRead<'a>>(
        &self,
        magic: Option<u32>,
        offset: int,
        size: int,
        r: Result<ListIn<'a, A>, Error>,
    ) -> bool {
        let bytes = A::spec_bytes(0, size as nat) as int;
        match self.check_object(magic, LISTMAGIC, offset, bytes) {
            Err(e) => r == Err::<ListIn<'a, A>, Error>(e),
            Ok(_) => r matches Ok(l) && l.spec_reader() == self.at(offset, bytes) && l.spec_len()
                == size && l.spec_item_size() == 0 && l.wf(),
        }
    }

    /// The list of `size` items whose body is at `offset` of the buffer.
    pub fn get_list_union<A: ListRead<'a>>(&self, magic: Option<u32>, offset: usize, size: usize) -> (r:
        Result<ListIn<'a, A>, Error>)
        requires
            self.wf(),
        ensures
            self.list_ok(magic, offset as int, size as int, r),
    {
        if let Some(m) = magic {
            if m != LISTMAGIC {
                return Err(Error::BadMagic(m, LISTMAGIC));
            }
        }
        let size_bytes = match A::bytes(0, size) {
            Some(b) => b,
            None => return Err(Error::InvalidPointer(usize::MAX, self.full.len())),
        };
        match self.check(None, LISTMAGIC, offset, size_bytes) {
            Err(e) => Err(e),
            Ok(_) => Ok(ListIn::from_parts(self.sub(offset, size_bytes), size, 0)),
        }
    }

    /// What the list pointer field at `offset` reads as.
    pub open spec fn list_field<A: ListRead<'a>>(
        &self,
        offset: int,
        r: Result<Option<ListIn<'a, A>>, Error>,
    ) -> bool {
        match self.ptr_at(offset) {
            Err(e) => r == Err::<Option<ListIn<'a, A>>, Error>(e),
            Ok(None) => r == Ok::<Option<ListIn<'a, A>>, Error>(None),
            Ok(Some((o, m, s))) => present(r) matches Some(x) && self.list_ok(Some(m), o as int, s as int, x),
        }
    }

    /// The list that the pointer field at `offset` refers to.
    pub fn get_list<A: ListRead<'a>>(&self, offset: usize) -> (r: Result<Option<ListIn<'a, A>>, Error>)
        requires
            self.wf(),
        ensures
            self.list_field(offset as int, r),
    {
        match self.get_ptr(offset) {
            Err(e) => Err(e),
            Ok(None) => Ok(None),
            Ok(Some((o, m, s))) => match self.get_list_union::<A>(Some(m), o, s) {
                Err(e) => Err(e),
                Ok(l) => Ok(Some(l)),
            },
        }
    }

    /// The list stored in place right after the region.
    pub fn get_list_inplace<A: ListRead<'a>>(&self, offset: usize) -> (r: Result<
        Option<ListIn<'a, A>>,
        Error,
    >)
        requires
            self.wf(),
        ensures
            match self.ptr_inplace_at(offset as int) {
                Err(e) => r == Err::<Option<ListIn<'a, A>>, Error>(e),
                Ok(None) => r == Ok::<Option<ListIn<'a, A>>, Error>(None),
                Ok(Some((o, s))) => present(r) matches Some(x) && self.list_ok(None, o as int, s as int, x),
            },
    {
        match self.get_ptr_inplace(offset) {
            Err(e) => Err(e),
            Ok(None) => Ok(None),
            Ok(Some((o, s))) => match self.get_list_union::<A>(None, o, s) {
                Err(e) => Err(e),
                Ok(l) => Ok(Some(l)),
            },
        }
    }

    /// What the pointer field at `offset` reads as, when it refers to a list
    /// of tables laid out back to back: its header carries the list's tag and
    /// count, then the tables' tag and the size of each.
    pub open spec fn direct_list_field<T: TableIn<'a>>(
        &self,
        offset: int,
        r: Result<Option<ListIn<'a, DirectTableListRead<T>>>, Error>,
    ) -> bool {
        match self.ptr_at(offset) {
            Err(e) => r == Err::<Option<ListIn<'a, DirectTableListRead<T>>>, Error>(e),
            Ok(None) => r == Ok::<Option<ListIn<'a, DirectTableListRead<T>>>, Error>(None),
            Ok(Some((o, m, s))) => if m != DIRECTLISTMAGIC {
                r == Err::<Option<ListIn<'a, DirectTableListRead<T>>>, Error>(
                    Error::BadMagic(m, DIRECTLISTMAGIC),
                )
            } else if self.data().len() < o + 8 {
                r == Err::<Option<ListIn<'a, DirectTableListRead<T>>>, Error>(
                    Error::InvalidPointer(sat_add(o as int, 8), self.data().len() as usize),
                )
            } else {
                let tm = le_value(self.bytes_at(o as int, 4)) as u32;
                let item = le_value(self.bytes_at(o + 4, 4));
                let bytes = s * item;
                if tm != T::spec_magic() {
                    r == Err::<Option<ListIn<'a, DirectTableListRead<T>>>, Error>(
                        Error::BadMagic(tm, T::spec_magic()),
                    )
                } else if o + 8 + bytes > self.data().len() {
                    r == Err::<Option<ListIn<'a, DirectTableListRead<T>>>, Error>(
                        Error::InvalidPointer(sat_add(o + 8, bytes), self.data().len() as usize),
                    )
                } else {
                    r matches Ok(Some(l)) && l.spec_reader() == self.at(o + 8, bytes) && l.spec_len()
                        == s && l.spec_item_size() == item && l.wf()
                }
            },
        }
    }

    /// The list of tables laid out back to back that the pointer field at
    /// `offset` refers to.
    pub fn get_direct_table_list<T: TableIn<'a>>(&self, offset: usize) -> (r: Result<
        Option<ListIn<'a, DirectTableListRead<T>>>,
        Error,
    >)
        requires
            self.wf(),
        ensures
            self.direct_list_field(offset as int, r),
    {
        let (o, m, size) = match self.get_ptr(offset) {
            Err(e) => return Err(e),
            Ok(None) => return Ok(None),
            Ok(Some(v)) => v,
        };
        if m != DIRECTLISTMAGIC {
            return Err(Error::BadMagic(m, DIRECTLISTMAGIC));
        }
        if o > self.full.len() || self.full.len() - o < 8 {
            return Err(Error::InvalidPointer(o.saturating_add(8), self.full.len()));
        }
        proof {
            lemma_le_value_bound(self.bytes_at(o as int, 4));
            lemma_le_value_bound(self.bytes_at(o + 4, 4));
            lemma_pow256_values();
        }
        let table_magic = read_le(self.full, o, 4) as u32;
        let tm = T::magic();
        if table_magic != tm {
            return Err(Error::BadMagic(table_magic, tm));
        }
        let item_size = read_le(self.full, o + 4, 4) as usize;
        let body = o + 8;
        let size_bytes = match size.checked_mul(item_size) {
            Some(b) => b,
            None => return Err(Error::InvalidPointer(usize::MAX, self.full.len())),
        };
        proof {
            assert(size * item_size == item_size * size) by (nonlinear_arith);
        }
        match self.check(None, DIRECTLISTMAGIC, body, size_bytes) {
            Err(e) => Err(e),
            Ok(_) => Ok(Some(ListIn::from_parts(self.sub(body, size_bytes), size, item_size))),
        }
    }

    /// What the union at `offset` reads as: a two-byte discriminant, zero
    /// past the region's end, and a pointer field.
    pub open spec fn union_field<U: UnionIn<'a>>(&self, offset: int, r: Result<U, Error>) -> bool {
        let t = match self.pod_at::<u16>(offset) {
            Some(v) => v,
            None => 0,
        };
        match self.ptr_at(offset + 2) {
            Err(e) => r == Err::<U, Error>(e),
            Ok(Some((o, m, s))) => U::spec_new(t, Some(m), o, s, *self, r),
            Ok(None) => U::spec_new(t, None, 0, 0, *self, r),
        }
    }

    /// The union at `offset` of the region.
    pub fn get_union<U: UnionIn<'a>>(&self, offset: usize) -> (r: Result<U, Error>)
        requires
            self.wf(),
            offset + 2 <= usize::MAX,
        ensures
            self.union_field(offset as int, r),
    {
        let t = match self.get_pod::<u16>(offset) {
            Some(v) => v,
            None => 0,
        };
        match self.get_ptr(offset + 2) {
            Err(e) => Err(e),
            Ok(Some((o, magic, size))) => U::new(t, Some(magic), o, size, self),
            Ok(None) => U::new(t, None, 0, 0, self),
        }
    }

    /// The union at `offset` whose payload is stored in place right after
    /// the region.
    pub fn get_union_inplace<U: UnionIn<'a>>(&self, offset: usize) -> (r: Result<U, Error>)
        requires
            self.wf(),
            offset + 2 <= usize::MAX,
        ensures
            ({
                let t = match self.pod_at::<u16>(offset as int) {
                    Some(v) => v,
                    None => 0,
                };
                match self.ptr_inplace_at(offset + 2) {
                    Err(e) => r == Err::<U, Error>(e),
                    Ok(Some((o, s))) => U::spec_new(t, None, o, s, *self, r),
                    Ok(None) => U::spec_new(t, None, 0, 0, *self, r),
                }
            }),
    {
        let t = match self.get_pod::<u16>(offset) {
            Some(v) => v,
            None => 0,
        };
        match self.get_ptr_inplace(offset + 2) {
            Err(e) => Err(e),
            Ok(Some((o, size))) => U::new(t, None, o, size, self),
            Ok(None) => U::new(t, None, 0, 0, self),
        }
    }
}

/// A result with the presence of its value taken off: none where it holds
/// no value and no error.
pub open spec fn present<T>(r: Result<Option<T>, Error>) -> Option<Result<T, Error>> {
    match r {
        Ok(Some(v)) => Some(Ok(v)),
        Ok(None) => None,
        Err(e) => Some(Err(e)),
    }
}

} // verus!
