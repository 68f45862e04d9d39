//! An example schema, written as generated accessor code would be: an
//! enumeration, two structs, and one table that uses every kind of field.

use vstd::prelude::*;
use vstd::string::StringSliceAdditionalSpecFns;
use crate::arena::{
    header, room, ArenaSlice, BytesOut, Inplace, Normal, PArena, StructOut, Struct, TableOut, TextOut, Union,
};
use crate::codec::{bit_of, le_bytes, le_value, lemma_with_bit, splice, with_bit, BYTESMAGIC, LISTMAGIC, TEXTMAGIC};
use crate::error::Error;
use crate::list_in::{ListIn, PodListRead, TextListRead};
use crate::list_out::{ListOut, PodListWrite, TextListWrite};
use crate::message::Table;
use crate::pod::{enum_byte, enum_of, to_bool, Enum, Pod};
use crate::reader::{Reader, StructIn, TableIn, UnionIn};
use crate::laws::lemma_pod_round_trip;
use crate::copy::CopyIn;

verus! {

/// The scalar at `offset` of `r`, or `d` where the region is too short.
pub open spec fn pod_or<'a, T: Pod>(r: Reader<'a>, offset: int, d: T) -> T {
    match r.pod_at::<T>(offset) {
        Some(v) => v,
        None => d,
    }
}

/// The byte at `offset` of `r`, or `d` where the region is too short.
pub open spec fn byte_or<'a>(r: Reader<'a>, offset: int, d: u8) -> u8 {
    match r.u8_at(offset) {
        Some(v) => v,
        None => d,
    }
}

/// The example enumeration.
#[derive(Debug, Clone, Copy, PartialEq, Eq, Structural)]
pub enum MyEnum {
    A,
    B,
    C,
    D,
}

impl Enum for MyEnum {
    open spec fn spec_count() -> nat {
        4
    }

    open spec fn spec_from_u8(v: u8) -> MyEnum {
        if v == 0 {
            MyEnum::A
        } else if v == 1 {
            MyEnum::B
        } else if v == 2 {
            MyEnum::C
        } else {
            MyEnum::D
        }
    }

    open spec fn spec_to_u8(e: MyEnum) -> u8 {
        match e {
            MyEnum::A => 0,
            MyEnum::B => 1,
            MyEnum::C => 2,
            MyEnum::D => 3,
        }
    }

    fn max_value() -> (r: u8) {
        4
    }

    fn from_u8(v: u8) -> (r: MyEnum) {
        if v == 0 {
            MyEnum::A
        } else if v == 1 {
            MyEnum::B
        } else if v == 2 {
            MyEnum::C
        } else {
            MyEnum::D
        }
    }

    fn to_u8(self) -> (r: u8) {
        match self {
            MyEnum::A => 0,
            MyEnum::B => 1,
            MyEnum::C => 2,
            MyEnum::D => 3,
        }
    }

    proof fn lemma_count_fits() {
    }

    proof fn lemma_round_trip(e: MyEnum) {
    }
}

/// The example struct as read: `x` and `y` and a flag `z`, nine bytes.
#[derive(Clone, Copy)]
pub struct MyStructIn<'a> {
    reader: Reader<'a>,
}

impl<'a> StructIn<'a> for MyStructIn<'a> {
    open spec fn spec_size() -> nat {
        9
    }

    closed spec fn spec_reader(&self) -> Reader<'a> {
        self.reader
    }

    fn size() -> (r: usize) {
        9
    }

    fn new(reader: Reader<'a>) -> (r: Self) {
        MyStructIn { reader }
    }
}

impl<'a> MyStructIn<'a> {
    /// Field `x`.
    pub fn x(&self) -> (r: u32)
        requires
            StructIn::spec_reader(self).wf(),
        ensures
            r == pod_or::<u32>(StructIn::spec_reader(self), 0, 0u32),
    {
        match self.reader.get_pod::<u32>(0) {
            Some(v) => v,
            None => 0,
        }
    }

    /// Field `y`.
    pub fn y(&self) -> (r: i32)
        requires
            StructIn::spec_reader(self).wf(),
        ensures
            r == pod_or::<i32>(StructIn::spec_reader(self), 4, 0i32),
    {
        match self.reader.get_pod::<i32>(4) {
            Some(v) => v,
            None => 0,
        }
    }

    /// Field `z`.
    pub fn z(&self) -> (r: bool)
        requires
            StructIn::spec_reader(self).wf(),
        ensures
            r == (byte_or(StructIn::spec_reader(self), 8, 0) != 0),
    {
        match self.reader.get_u8(8) {
            Some(v) => to_bool(v),
            None => false,
        }
    }
}

/// The example struct with a field of every fixed kind, as read.
#[derive(Clone, Copy)]
pub struct FullStructIn<'a> {
    reader: Reader<'a>,
}

impl<'a> StructIn<'a> for FullStructIn<'a> {
    open spec fn spec_size() -> nat {
        41
    }

    closed spec fn spec_reader(&self) -> Reader<'a> {
        self.reader
    }

    fn size() -> (r: usize) {
        41
    }

    fn new(reader: Reader<'a>) -> (r: Self) {
        FullStructIn { reader }
    }
}

impl<'a> FullStructIn<'a> {
    /// Field `e`.
    pub fn e(&self) -> (r: Option<MyEnum>)
        requires
            StructIn::spec_reader(self).wf(),
        ensures
            r == enum_of::<MyEnum>(byte_or(StructIn::spec_reader(self), 0, 255)),
    {
        self.reader.get_enum::<MyEnum>(0, 255)
    }

    /// Field `s`.
    pub fn s(&self) -> (r: MyStructIn<'a>)
        requires
            StructIn::spec_reader(self).wf(),
        ensures
            r.spec_reader() == StructIn::spec_reader(self).struct_reader(1, 9),
            r.spec_reader().wf(),
    {
        self.reader.get_struct::<MyStructIn<'a>>(1)
    }

    /// Field `b`.
    pub fn b(&self) -> (r: bool)
        requires
            StructIn::spec_reader(self).wf(),
        ensures
            r == (byte_or(StructIn::spec_reader(self), 10, 0) != 0),
    {
        match self.reader.get_u8(10) {
            Some(v) => to_bool(v),
            None => false,
        }
    }

    /// Field `u8`.
    pub fn u8_(&self) -> (r: u8)
        requires
            StructIn::spec_reader(self).wf(),
        ensures
            r == pod_or::<u8>(StructIn::spec_reader(self), 11, 0u8),
    {
        match self.reader.get_pod::<u8>(11) {
            Some(v) => v,
            None => 0,
        }
    }

    /// Field `u16`.
    pub fn u16_(&self) -> (r: u16)
        requires
            StructIn::spec_reader(self).wf(),
        ensures
            r == pod_or::<u16>(StructIn::spec_reader(self), 12, 0u16),
    {
        match self.reader.get_pod::<u16>(12) {
            Some(v) => v,
            None => 0,
        }
    }

    /// Field `u32`.
    pub fn u32_(&self) -> (r: u32)
        requires
            StructIn::spec_reader(self).wf(),
        ensures
            r == pod_or::<u32>(StructIn::spec_reader(self), 14, 0u32),
    {
        match self.reader.get_pod::<u32>(14) {
            Some(v) => v,
            None => 0,
        }
    }

    /// Field `u64`.
    pub fn u64_(&self) -> (r: u64)
        requires
            StructIn::spec_reader(self).wf(),
        ensures
            r == pod_or::<u64>(StructIn::spec_reader(self), 18, 0u64),
    {
        match self.reader.get_pod::<u64>(18) {
            Some(v) => v,
            None => 0,
        }
    }

    /// Field `i8`.
    pub fn i8_(&self) -> (r: i8)
        requires
            StructIn::spec_reader(self).wf(),
        ensures
            r == pod_or::<i8>(StructIn::spec_reader(self), 26, 0i8),
    {
        match self.reader.get_pod::<i8>(26) {
            Some(v) => v,
            None => 0,
        }
    }

    /// Field `i16`.
    pub fn i16_(&self) -> (r: i16)
        requires
            StructIn::spec_reader(self).wf(),
        ensures
            r == pod_or::<i16>(StructIn::spec_reader(self), 27, 0i16),
    {
        match self.reader.get_pod::<i16>(27) {
            Some(v) => v,
            None => 0,
        }
    }

    /// Field `i32`.
    pub fn i32_(&self) -> (r: i32)
        requires
            StructIn::spec_reader(self).wf(),
        ensures
            r == pod_or::<i32>(StructIn::spec_reader(self), 29, 0i32),
    {
        match self.reader.get_pod::<i32>(29) {
            Some(v) => v,
            None => 0,
        }
    }

    /// Field `i64`.
    pub fn i64_(&self) -> (r: i64)
        requires
            StructIn::spec_reader(self).wf(),
        ensures
            r == pod_or::<i64>(StructIn::spec_reader(self), 33, 0i64),
    {
        match self.reader.get_pod::<i64>(33) {
            Some(v) => v,
            None => 0,
        }
    }
}

/// The example table as read.
#[derive(Clone, Copy)]
pub struct SimpleIn<'a> {
    reader: Reader<'a>,
}

impl<'a> TableIn<'a> for SimpleIn<'a> {
    open spec fn spec_magic() -> u32 {
        0xF0606B0B
    }

    closed spec fn spec_reader(&self) -> Reader<'a> {
        self.reader
    }

    fn magic() -> (r: u32) {
        0xF0606B0B
    }

    fn new(reader: Reader<'a>) -> (r: Self) {
        SimpleIn { reader }
    }
}

impl<'a> SimpleIn<'a> {
    /// Field `e`.
    pub fn e(&self) -> (r: Option<MyEnum>)
        requires
            TableIn::spec_reader(self).wf(),
        ensures
            r == enum_of::<MyEnum>(byte_or(TableIn::spec_reader(self), 0, 255)),
    {
        self.reader.get_enum::<MyEnum>(0, 255)
    }

    /// Field `s`.
    pub fn s(&self) -> (r: FullStructIn<'a>)
        requires
            TableIn::spec_reader(self).wf(),
        ensures
            r.spec_reader() == TableIn::spec_reader(self).struct_reader(1, 41),
            r.spec_reader().wf(),
    {
        self.reader.get_struct::<FullStructIn<'a>>(1)
    }

    /// Field `b`.
    pub fn b(&self) -> (r: bool)
        requires
            TableIn::spec_reader(self).wf(),
        ensures
            r == bit_of(byte_or(TableIn::spec_reader(self), 42, 0), 0),
    {
        self.reader.get_bit(42, 0)
    }

    /// Field `u8`, `2` where not written.
    pub fn u8_(&self) -> (r: u8)
        requires
            TableIn::spec_reader(self).wf(),
        ensures
            r == pod_or::<u8>(TableIn::spec_reader(self), 43, 2u8),
    {
        match self.reader.get_pod::<u8>(43) {
            Some(v) => v,
            None => 2,
        }
    }

    /// Field `u16`, `3` where not written.
    pub fn u16_(&self) -> (r: u16)
        requires
            TableIn::spec_reader(self).wf(),
        ensures
            r == pod_or::<u16>(TableIn::spec_reader(self), 44, 3u16),
    {
        match self.reader.get_pod::<u16>(44) {
            Some(v) => v,
            None => 3,
        }
    }

    /// Field `u32`, `4` where not written.
    pub fn u32_(&self) -> (r: u32)
        requires
            TableIn::spec_reader(self).wf(),
        ensures
            r == pod_or::<u32>(TableIn::spec_reader(self), 46, 4u32),
    {
        match self.reader.get_pod::<u32>(46) {
            Some(v) => v,
            None => 4,
        }
    }

    /// Field `u64`, `5` where not written.
    pub fn u64_(&self) -> (r: u64)
        requires
            TableIn::spec_reader(self).wf(),
        ensures
            r == pod_or::<u64>(TableIn::spec_reader(self), 50, 5u64),
    {
        match self.reader.get_pod::<u64>(50) {
            Some(v) => v,
            None => 5,
        }
    }

    /// Field `i8`, `6` where not written.
    pub fn i8_(&self) -> (r: i8)
        requires
            TableIn::spec_reader(self).wf(),
        ensures
            r == pod_or::<i8>(TableIn::spec_reader(self), 58, 6i8),
    {
        match self.reader.get_pod::<i8>(58) {
            Some(v) => v,
            None => 6,
        }
    }

    /// Field `i16`, `7` where not written.
    pub fn i16_(&self) -> (r: i16)
        requires
            TableIn::spec_reader(self).wf(),
        ensures
            r == pod_or::<i16>(TableIn::spec_reader(self), 59, 7i16),
    {
        match self.reader.get_pod::<i16>(59) {
            Some(v) => v,
            None => 7,
        }
    }

    /// Field `i32`, `8` where not written.
    pub fn i32_(&self) -> (r: i32)
        requires
            TableIn::spec_reader(self).wf(),
        ensures
            r == pod_or::<i32>(TableIn::spec_reader(self), 61, 8i32),
    {
        match self.reader.get_pod::<i32>(61) {
            Some(v) => v,
            None => 8,
        }
    }

    /// Field `i64`, `9` where not written.
    pub fn i64_(&self) -> (r: i64)
        requires
            TableIn::spec_reader(self).wf(),
        ensures
            r == pod_or::<i64>(TableIn::spec_reader(self), 65, 9i64),
    {
        match self.reader.get_pod::<i64>(65) {
            Some(v) => v,
            None => 9,
        }
    }

    /// Optional struct field `os`.
    pub fn os(&self) -> (r: Option<MyStructIn<'a>>)
        requires
            TableIn::spec_reader(self).wf(),
        ensures
            bit_of(byte_or(TableIn::spec_reader(self), 42, 0), 1) ==> (r matches Some(v)
                && v.spec_reader() == TableIn::spec_reader(self).struct_reader(73, 9)),
            !bit_of(byte_or(TableIn::spec_reader(self), 42, 0), 1) ==> r is None,
    {
        if self.reader.get_bit(42, 1) {
            Some(self.reader.get_struct::<MyStructIn<'a>>(73))
        } else {
            None
        }
    }

    /// Optional boolean field `ob`.
    pub fn ob(&self) -> (r: Option<bool>)
        requires
            TableIn::spec_reader(self).wf(),
        ensures
            r == if bit_of(byte_or(TableIn::spec_reader(self), 42, 0), 2) {
                Some(bit_of(byte_or(TableIn::spec_reader(self), 42, 0), 3))
            } else {
                None
            },
    {
        if self.reader.get_bit(42, 2) {
            Some(self.reader.get_bit(42, 3))
        } else {
            None
        }
    }

    /// Optional field `ou8`.
    pub fn ou8(&self) -> (r: Option<u8>)
        requires
            TableIn::spec_reader(self).wf(),
        ensures
            r == if bit_of(byte_or(TableIn::spec_reader(self), 42, 0), 4) {
                Some(pod_or::<u8>(TableIn::spec_reader(self), 82, 0u8))
            } else {
                None
            },
    {
        if self.reader.get_bit(42, 4) {
            Some(
                match self.reader.get_pod::<u8>(82) {
                    Some(v) => v,
                    None => 0,
                },
            )
        } else {
            None
        }
    }

    /// Optional field `ou16`.
    pub fn ou16(&self) -> (r: Option<u16>)
        requires
            TableIn::spec_reader(self).wf(),
        ensures
            r == if bit_of(byte_or(TableIn::spec_reader(self), 42, 0), 5) {
                Some(pod_or::<u16>(TableIn::spec_reader(self), 83, 0u16))
            } else {
                None
            },
    {
        if self.reader.get_bit(42, 5) {
            Some(
                match self.reader.get_pod::<u16>(83) {
                    Some(v) => v,
                    None => 0,
                },
            )
        } else {
            None
        }
    }

    /// Optional field `ou32`.
    pub fn ou32(&self) -> (r: Option<u32>)
        requires
            TableIn::spec_reader(self).wf(),
        ensures
            r == if bit_of(byte_or(TableIn::spec_reader(self), 42, 0), 6) {
                Some(pod_or::<u32>(TableIn::spec_reader(self), 85, 0u32))
            } else {
                None
            },
    {
        if self.reader.get_bit(42, 6) {
            Some(
                match self.reader.get_pod::<u32>(85) {
                    Some(v) => v,
                    None => 0,
                },
            )
        } else {
            None
        }
    }

    /// Text field `name`.
    pub fn name(&self) -> (r: Result<Option<&'a str>, Error>)
        requires
            TableIn::spec_reader(self).wf(),
        ensures
            TableIn::spec_reader(self).text_field(89, r),
    {
        self.reader.get_text(89)
    }

    /// Bytes field `data`.
    pub fn data(&self) -> (r: Result<Option<&'a [u8]>, Error>)
        requires
            TableIn::spec_reader(self).wf(),
        ensures
            TableIn::spec_reader(self).blob_field(95, r),
    {
        self.reader.get_bytes(95)
    }

    /// List field `numbers`.
    pub fn numbers(&self) -> (r: Result<Option<ListIn<'a, PodListRead<i32>>>, Error>)
        requires
            TableIn::spec_reader(self).wf(),
        ensures
            TableIn::spec_reader(self).list_field(101, r),
    {
        self.reader.get_list::<PodListRead<i32>>(101)
    }

    /// List field `words`.
    pub fn words(&self) -> (r: Result<Option<ListIn<'a, TextListRead>>, Error>)
        requires
            TableIn::spec_reader(self).wf(),
        ensures
            TableIn::spec_reader(self).list_field(107, r),
    {
        self.reader.get_list::<TextListRead>(107)
    }

    /// Union field `u`.
    pub fn u(&self) -> (r: Result<MyUnionIn<'a>, Error>)
        requires
            TableIn::spec_reader(self).wf(),
        ensures
            TableIn::spec_reader(self).union_field(119, r),
    {
        self.reader.get_union::<MyUnionIn<'a>>(119)
    }

    /// Table field `child`.
    pub fn child(&self) -> (r: Result<Option<SimpleIn<'a>>, Error>)
        requires
            TableIn::spec_reader(self).wf(),
        ensures
            TableIn::spec_reader(self).table_field(113, r),
    {
        self.reader.get_table::<SimpleIn<'a>>(113)
    }
}

/// The example struct as written.
pub struct MyStructOut {
    slice: ArenaSlice,
}

impl StructOut for MyStructOut {
    open spec fn spec_size() -> nat {
        9
    }

    closed spec fn spec_slice(&self) -> ArenaSlice {
        self.slice
    }

    fn size() -> (r: usize) {
        9
    }

    fn new(data: ArenaSlice) -> (r: Self) {
        MyStructOut { slice: data }
    }
}

impl MyStructOut {
    /// Whether the handle can be written through `arena`.
    pub open spec fn ready(&self, arena: &PArena) -> bool {
        &&& StructOut::spec_slice(self).within(arena)
        &&& StructOut::spec_slice(self).spec_length() == 9
    }

    /// Sets `x`.
    pub fn x(&mut self, arena: &mut PArena, v: u32)
        requires
            old(self).ready(old(arena)),
        ensures
            *final(self) == *old(self),
            final(arena).rewritten(*old(arena)),
            final(arena).bytes() == splice(
                old(arena).bytes(),
                StructOut::spec_slice(old(self)).pos(0),
                u32::spec_encode(v),
            ),
    {
        self.slice.set_pod(arena, 0, &v);
    }

    /// Sets `y`.
    pub fn y(&mut self, arena: &mut PArena, v: i32)
        requires
            old(self).ready(old(arena)),
        ensures
            *final(self) == *old(self),
            final(arena).rewritten(*old(arena)),
            final(arena).bytes() == splice(
                old(arena).bytes(),
                StructOut::spec_slice(old(self)).pos(4),
                i32::spec_encode(v),
            ),
    {
        self.slice.set_pod(arena, 4, &v);
    }

    /// Sets `z`.
    pub fn z(&mut self, arena: &mut PArena, v: bool)
        requires
            old(self).ready(old(arena)),
        ensures
            *final(self) == *old(self),
            final(arena).rewritten(*old(arena)),
            final(arena).bytes() == old(arena).bytes().update(
                StructOut::spec_slice(old(self)).pos(8),
                if v {
                    1u8
                } else {
                    0u8
                },
            ),
    {
        self.slice.set_bool(arena, 8, v);
    }
}

/// The example struct with a field of every fixed kind, as written.
pub struct FullStructOut {
    slice: ArenaSlice,
}

impl StructOut for FullStructOut {
    open spec fn spec_size() -> nat {
        41
    }

    closed spec fn spec_slice(&self) -> ArenaSlice {
        self.slice
    }

    fn size() -> (r: usize) {
        41
    }

    fn new(data: ArenaSlice) -> (r: Self) {
        FullStructOut { slice: data }
    }
}

impl FullStructOut {
    /// Whether the handle can be written through `arena`.
    pub open spec fn ready(&self, arena: &PArena) -> bool {
        &&& StructOut::spec_slice(self).within(arena)
        &&& StructOut::spec_slice(self).spec_length() == 41
    }

    /// Sets `e`.
    pub fn e(&mut self, arena: &mut PArena, v: Option<MyEnum>)
        requires
            old(self).ready(old(arena)),
        ensures
            *final(self) == *old(self),
            final(arena).rewritten(*old(arena)),
            final(arena).bytes() == old(arena).bytes().update(
                StructOut::spec_slice(old(self)).pos(0),
                enum_byte(v),
            ),
    {
        self.slice.set_enum(arena, 0, v);
    }

    /// The handle of `s`.
    pub fn s(&mut self) -> (r: MyStructOut)
        requires
            StructOut::spec_slice(old(self)).spec_length() == 41,
            StructOut::spec_slice(old(self)).spec_offset() + 41 <= usize::MAX,
        ensures
            *final(self) == *old(self),
            StructOut::spec_slice(&r).spec_arena() == StructOut::spec_slice(old(self)).spec_arena(),
            StructOut::spec_slice(&r).spec_offset() == StructOut::spec_slice(old(self)).pos(1),
            StructOut::spec_slice(&r).spec_length() == 9,
    {
        MyStructOut::new(self.slice.part(1, 9))
    }

    /// Sets `b`.
    pub fn b(&mut self, arena: &mut PArena, v: bool)
        requires
            old(self).ready(old(arena)),
        ensures
            *final(self) == *old(self),
            final(arena).rewritten(*old(arena)),
            final(arena).bytes() == old(arena).bytes().update(
                StructOut::spec_slice(old(self)).pos(10),
                if v {
                    1u8
                } else {
                    0u8
                },
            ),
    {
        self.slice.set_bool(arena, 10, v);
    }

    /// Sets `u8`.
    pub fn u8_(&mut self, arena: &mut PArena, v: u8)
        requires
            old(self).ready(old(arena)),
        ensures
            *final(self) == *old(self),
            final(arena).rewritten(*old(arena)),
            final(arena).bytes() == splice(
                old(arena).bytes(),
                StructOut::spec_slice(old(self)).pos(11),
                u8::spec_encode(v),
            ),
    {
        self.slice.set_pod(arena, 11, &v);
    }

    /// Sets `u16`.
    pub fn u16_(&mut self, arena: &mut PArena, v: u16)
        requires
            old(self).ready(old(arena)),
        ensures
            *final(self) == *old(self),
            final(arena).rewritten(*old(arena)),
            final(arena).bytes() == splice(
                old(arena).bytes(),
                StructOut::spec_slice(old(self)).pos(12),
                u16::spec_encode(v),
            ),
    {
        self.slice.set_pod(arena, 12, &v);
    }

    /// Sets `u32`.
    pub fn u32_(&mut self, arena: &mut PArena, v: u32)
        requires
            old(self).ready(old(arena)),
        ensures
            *final(self) == *old(self),
            final(arena).rewritten(*old(arena)),
            final(arena).bytes() == splice(
                old(arena).bytes(),
                StructOut::spec_slice(old(self)).pos(14),
                u32::spec_encode(v),
            ),
    {
        self.slice.set_pod(arena, 14, &v);
    }

    /// Sets `u64`.
    pub fn u64_(&mut self, arena: &mut PArena, v: u64)
        requires
            old(self).ready(old(arena)),
        ensures
            *final(self) == *old(self),
            final(arena).rewritten(*old(arena)),
            final(arena).bytes() == splice(
                old(arena).bytes(),
                StructOut::spec_slice(old(self)).pos(18),
                u64::spec_encode(v),
            ),
    {
        self.slice.set_pod(arena, 18, &v);
    }

    /// Sets `i8`.
    pub fn i8_(&mut self, arena: &mut PArena, v: i8)
        requires
            old(self).ready(old(arena)),
        ensures
            *final(self) == *old(self),
            final(arena).rewritten(*old(arena)),
            final(arena).bytes() == splice(
                old(arena).bytes(),
                StructOut::spec_slice(old(self)).pos(26),
                i8::spec_encode(v),
            ),
    {
        self.slice.set_pod(arena, 26, &v);
    }

    /// Sets `i16`.
    pub fn i16_(&mut self, arena: &mut PArena, v: i16)
        requires
            old(self).ready(old(arena)),
        ensures
            *final(self) == *old(self),
            final(arena).rewritten(*old(arena)),
            final(arena).bytes() == splice(
                old(arena).bytes(),
                StructOut::spec_slice(old(self)).pos(27),
                i16::spec_encode(v),
            ),
    {
        self.slice.set_pod(arena, 27, &v);
    }

    /// Sets `i32`.
    pub fn i32_(&mut self, arena: &mut PArena, v: i32)
        requires
            old(self).ready(old(arena)),
        ensures
            *final(self) == *old(self),
            final(arena).rewritten(*old(arena)),
            final(arena).bytes() == splice(
                old(arena).bytes(),
                StructOut::spec_slice(old(self)).pos(29),
                i32::spec_encode(v),
            ),
    {
        self.slice.set_pod(arena, 29, &v);
    }

    /// Sets `i64`.
    pub fn i64_(&mut self, arena: &mut PArena, v: i64)
        requires
            old(self).ready(old(arena)),
        ensures
            *final(self) == *old(self),
            final(arena).rewritten(*old(arena)),
            final(arena).bytes() == splice(
                old(arena).bytes(),
                StructOut::spec_slice(old(self)).pos(33),
                i64::spec_encode(v),
            ),
    {
        self.slice.set_pod(arena, 33, &v);
    }
}

/// The example table as written.
pub struct SimpleOut {
    slice: ArenaSlice,
}

impl SimpleOut {
    /// Whether the handle can be written through `arena`.
    pub open spec fn ready(&self, arena: &PArena) -> bool {
        &&& TableOut::<Normal>::spec_slice(self).within(arena)
        &&& TableOut::<Normal>::spec_slice(self).spec_length() == 127
    }

    /// Sets `e`.
    pub fn e(&mut self, arena: &mut PArena, v: Option<MyEnum>)
        requires
            old(self).ready(old(arena)),
        ensures
            *final(self) == *old(self),
            final(arena).rewritten(*old(arena)),
            final(arena).bytes() == old(arena).bytes().update(
                TableOut::<Normal>::spec_slice(old(self)).pos(0),
                enum_byte(v),
            ),
    {
        self.slice.set_enum(arena, 0, v);
    }

    /// The handle of `s`.
    pub fn s(&mut self) -> (r: FullStructOut)
        requires
            TableOut::<Normal>::spec_slice(old(self)).spec_length() == 127,
            TableOut::<Normal>::spec_slice(old(self)).spec_offset() + 127 <= usize::MAX,
        ensures
            *final(self) == *old(self),
            StructOut::spec_slice(&r).spec_arena() == TableOut::<Normal>::spec_slice(old(self)).spec_arena(),
            StructOut::spec_slice(&r).spec_offset() == TableOut::<Normal>::spec_slice(old(self)).pos(1),
            StructOut::spec_slice(&r).spec_length() == 41,
    {
        FullStructOut::new(self.slice.part(1, 41))
    }

    /// Sets `b`.
    pub fn b(&mut self, arena: &mut PArena, v: bool)
        requires
            old(self).ready(old(arena)),
        ensures
            *final(self) == *old(self),
            final(arena).rewritten(*old(arena)),
            final(arena).bytes() == old(arena).bytes().update(
                TableOut::<Normal>::spec_slice(old(self)).pos(42),
                with_bit(old(arena).bytes()[TableOut::<Normal>::spec_slice(old(self)).pos(42)], 0, v),
            ),
    {
        self.slice.set_bit(arena, 42, 0, v);
    }

    /// Sets `u8`.
    pub fn u8_(&mut self, arena: &mut PArena, v: u8)
        requires
            old(self).ready(old(arena)),
        ensures
            *final(self) == *old(self),
            final(arena).rewritten(*old(arena)),
            final(arena).bytes() == splice(
                old(arena).bytes(),
                TableOut::<Normal>::spec_slice(old(self)).pos(43),
                u8::spec_encode(v),
            ),
    {
        self.slice.set_pod(arena, 43, &v);
    }

    /// Sets `u16`.
    pub fn u16_(&mut self, arena: &mut PArena, v: u16)
        requires
            old(self).ready(old(arena)),
        ensures
            *final(self) == *old(self),
            final(arena).rewritten(*old(arena)),
            final(arena).bytes() == splice(
                old(arena).bytes(),
                TableOut::<Normal>::spec_slice(old(self)).pos(44),
                u16::spec_encode(v),
            ),
    {
        self.slice.set_pod(arena, 44, &v);
    }

    /// Sets `u32`.
    pub fn u32_(&mut self, arena: &mut PArena, v: u32)
        requires
            old(self).ready(old(arena)),
        ensures
            *final(self) == *old(self),
            final(arena).rewritten(*old(arena)),
            final(arena).bytes() == splice(
                old(arena).bytes(),
                TableOut::<Normal>::spec_slice(old(self)).pos(46),
                u32::spec_encode(v),
            ),
    {
        self.slice.set_pod(arena, 46, &v);
    }

    /// Sets `u64`.
    pub fn u64_(&mut self, arena: &mut PArena, v: u64)
        requires
            old(self).ready(old(arena)),
        ensures
            *final(self) == *old(self),
            final(arena).rewritten(*old(arena)),
            final(arena).bytes() == splice(
                old(arena).bytes(),
                TableOut::<Normal>::spec_slice(old(self)).pos(50),
                u64::spec_encode(v),
            ),
    {
        self.slice.set_pod(arena, 50, &v);
    }

    /// Sets `i8`.
    pub fn i8_(&mut self, arena: &mut PArena, v: i8)
        requires
            old(self).ready(old(arena)),
        ensures
            *final(self) == *old(self),
            final(arena).rewritten(*old(arena)),
            final(arena).bytes() == splice(
                old(arena).bytes(),
                TableOut::<Normal>::spec_slice(old(self)).pos(58),
                i8::spec_encode(v),
            ),
    {
        self.slice.set_pod(arena, 58, &v);
    }

    /// Sets `i16`.
    pub fn i16_(&mut self, arena: &mut PArena, v: i16)
        requires
            old(self).ready(old(arena)),
        ensures
            *final(self) == *old(self),
            final(arena).rewritten(*old(arena)),
            final(arena).bytes() == splice(
                old(arena).bytes(),
                TableOut::<Normal>::spec_slice(old(self)).pos(59),
                i16::spec_encode(v),
            ),
    {
        self.slice.set_pod(arena, 59, &v);
    }

    /// Sets `i32`.
    pub fn i32_(&mut self, arena: &mut PArena, v: i32)
        requires
            old(self).ready(old(arena)),
        ensures
            *final(self) == *old(self),
            final(arena).rewritten(*old(arena)),
            final(arena).bytes() == splice(
                old(arena).bytes(),
                TableOut::<Normal>::spec_slice(old(self)).pos(61),
                i32::spec_encode(v),
            ),
    {
        self.slice.set_pod(arena, 61, &v);
    }

    /// Sets `i64`.
    pub fn i64_(&mut self, arena: &mut PArena, v: i64)
        requires
            old(self).ready(old(arena)),
        ensures
            *final(self) == *old(self),
            final(arena).rewritten(*old(arena)),
            final(arena).bytes() == splice(
                old(arena).bytes(),
                TableOut::<Normal>::spec_slice(old(self)).pos(65),
                i64::spec_encode(v),
            ),
    {
        self.slice.set_pod(arena, 65, &v);
    }

    /// Marks `os` present and returns its handle.
    pub fn os(&mut self, arena: &mut PArena) -> (r: MyStructOut)
        requires
            old(self).ready(old(arena)),
        ensures
            *final(self) == *old(self),
            final(arena).rewritten(*old(arena)),
            final(arena).bytes() == old(arena).bytes().update(
                TableOut::<Normal>::spec_slice(old(self)).pos(42),
                with_bit(old(arena).bytes()[TableOut::<Normal>::spec_slice(old(self)).pos(42)], 1, true),
            ),
            StructOut::spec_slice(&r).spec_arena() == TableOut::<Normal>::spec_slice(old(self)).spec_arena(),
            StructOut::spec_slice(&r).spec_offset() == TableOut::<Normal>::spec_slice(old(self)).pos(73),
            StructOut::spec_slice(&r).spec_length() == 9,
    {
        self.slice.set_bit(arena, 42, 1, true);
        MyStructOut::new(self.slice.part(73, 9))
    }

    /// Sets `ob`.
    pub fn ob(&mut self, arena: &mut PArena, v: bool)
        requires
            old(self).ready(old(arena)),
        ensures
            *final(self) == *old(self),
            final(arena).rewritten(*old(arena)),
            final(arena).bytes() == old(arena).bytes().update(
                TableOut::<Normal>::spec_slice(old(self)).pos(42),
                with_bit(
                    with_bit(old(arena).bytes()[TableOut::<Normal>::spec_slice(old(self)).pos(42)], 2, true),
                    3,
                    v,
                ),
            ),
    {
        self.slice.set_bit(arena, 42, 2, true);
        self.slice.set_bit(arena, 42, 3, v);
    }

    /// Sets `ou8`.
    pub fn ou8(&mut self, arena: &mut PArena, v: u8)
        requires
            old(self).ready(old(arena)),
        ensures
            *final(self) == *old(self),
            final(arena).rewritten(*old(arena)),
            final(arena).bytes() == splice(
                old(arena).bytes().update(
                    TableOut::<Normal>::spec_slice(old(self)).pos(42),
                    with_bit(old(arena).bytes()[TableOut::<Normal>::spec_slice(old(self)).pos(42)], 4, true),
                ),
                TableOut::<Normal>::spec_slice(old(self)).pos(82),
                u8::spec_encode(v),
            ),
    {
        self.slice.set_bit(arena, 42, 4, true);
        self.slice.set_pod(arena, 82, &v);
    }

    /// Sets `ou16`.
    pub fn ou16(&mut self, arena: &mut PArena, v: u16)
        requires
            old(self).ready(old(arena)),
        ensures
            *final(self) == *old(self),
            final(arena).rewritten(*old(arena)),
            final(arena).bytes() == splice(
                old(arena).bytes().update(
                    TableOut::<Normal>::spec_slice(old(self)).pos(42),
                    with_bit(old(arena).bytes()[TableOut::<Normal>::spec_slice(old(self)).pos(42)], 5, true),
                ),
                TableOut::<Normal>::spec_slice(old(self)).pos(83),
                u16::spec_encode(v),
            ),
    {
        self.slice.set_bit(arena, 42, 5, true);
        self.slice.set_pod(arena, 83, &v);
    }

    /// Sets `ou32`.
    pub fn ou32(&mut self, arena: &mut PArena, v: u32)
        requires
            old(self).ready(old(arena)),
        ensures
            *final(self) == *old(self),
            final(arena).rewritten(*old(arena)),
            final(arena).bytes() == splice(
                old(arena).bytes().update(
                    TableOut::<Normal>::spec_slice(old(self)).pos(42),
                    with_bit(old(arena).bytes()[TableOut::<Normal>::spec_slice(old(self)).pos(42)], 6, true),
                ),
                TableOut::<Normal>::spec_slice(old(self)).pos(85),
                u32::spec_encode(v),
            ),
    {
        self.slice.set_bit(arena, 42, 6, true);
        self.slice.set_pod(arena, 85, &v);
    }

    /// Writes text for `name` and points the field to it.
    pub fn name(&mut self, arena: &mut PArena, v: &str) -> (r: TextOut)
        requires
            old(self).ready(old(arena)),
            room(old(arena).bytes().len() as int, 11 + v.spec_bytes().len() as int),
        ensures
            *final(self) == *old(self),
            final(arena).grown_from(*old(arena)),
            final(arena).bytes() == splice(
                old(arena).bytes() + header(TEXTMAGIC, v.spec_bytes().len()) + v.spec_bytes() + seq![0u8],
                TableOut::<Normal>::spec_slice(old(self)).pos(89),
                le_bytes(old(arena).bytes().len(), 6),
            ),
    {
        self.slice.add_text(arena, 89, v)
    }

    /// Points `name` to a text object, or clears it.
    pub fn set_name(&mut self, arena: &mut PArena, v: Option<&TextOut>)
        requires
            old(self).ready(old(arena)),
            ArenaSlice::blob_in(TextOut::slice_of(v), old(arena)),
        ensures
            *final(self) == *old(self),
            final(arena).rewritten(*old(arena)),
            final(arena).bytes() == splice(
                old(arena).bytes(),
                TableOut::<Normal>::spec_slice(old(self)).pos(89),
                le_bytes(ArenaSlice::blob_ref(TextOut::slice_of(v)), 6),
            ),
    {
        self.slice.set_text(arena, 89, v)
    }

    /// Writes bytes for `data` and points the field to them.
    pub fn data(&mut self, arena: &mut PArena, v: &[u8]) -> (r: BytesOut)
        requires
            old(self).ready(old(arena)),
            room(old(arena).bytes().len() as int, 10 + v@.len() as int),
        ensures
            *final(self) == *old(self),
            final(arena).grown_from(*old(arena)),
            final(arena).bytes() == splice(
                old(arena).bytes() + header(BYTESMAGIC, v@.len()) + v@,
                TableOut::<Normal>::spec_slice(old(self)).pos(95),
                le_bytes(old(arena).bytes().len(), 6),
            ),
    {
        self.slice.add_bytes(arena, 95, v)
    }

    /// Writes a list of `len` numbers, all zero, for `numbers`.
    pub fn numbers(&mut self, arena: &mut PArena, len: usize) -> (r: ListOut<PodListWrite<i32>, Normal>)
        requires
            old(self).ready(old(arena)),
            room(old(arena).bytes().len() as int, 10 + 4 * len),
            len < 0x1_0000_0000_0000,
        ensures
            *final(self) == *old(self),
            final(arena).grown_from(*old(arena)),
            final(arena).bytes() == splice(
                old(arena).bytes() + header(LISTMAGIC, len as nat) + Seq::new(
                    (len * 4) as nat,
                    |i: int| 0u8,
                ),
                TableOut::<Normal>::spec_slice(old(self)).pos(101),
                le_bytes(old(arena).bytes().len(), 6),
            ),
            r.spec_slice().spec_arena() == old(arena).spec_id(),
            r.spec_len() == len,
            r.wf(),
    {
        self.slice.add_list::<PodListWrite<i32>>(arena, 101, len)
    }

    /// Writes a list of `len` text pointers, all none, for `words`.
    pub fn words(&mut self, arena: &mut PArena, len: usize) -> (r: ListOut<TextListWrite, Normal>)
        requires
            old(self).ready(old(arena)),
            room(old(arena).bytes().len() as int, 10 + 6 * len),
            len < 0x1_0000_0000_0000,
        ensures
            *final(self) == *old(self),
            final(arena).grown_from(*old(arena)),
            final(arena).bytes() == splice(
                old(arena).bytes() + header(LISTMAGIC, len as nat) + Seq::new(
                    (len * 6) as nat,
                    |i: int| 0u8,
                ),
                TableOut::<Normal>::spec_slice(old(self)).pos(107),
                le_bytes(old(arena).bytes().len(), 6),
            ),
            r.spec_slice().spec_arena() == old(arena).spec_id(),
            r.spec_len() == len,
            r.wf(),
    {
        self.slice.add_list::<TextListWrite>(arena, 107, len)
    }

    /// The handle of union field `u`.
    pub fn u(&mut self) -> (r: MyUnionOut)
        requires
            TableOut::<Normal>::spec_slice(old(self)).spec_length() == 127,
            TableOut::<Normal>::spec_slice(old(self)).spec_offset() + 127 <= usize::MAX,
        ensures
            *final(self) == *old(self),
            r.spec_slice().spec_arena() == TableOut::<Normal>::spec_slice(old(self)).spec_arena(),
            r.spec_slice().spec_offset() == TableOut::<Normal>::spec_slice(old(self)).pos(119),
            r.spec_slice().spec_length() == 8,
    {
        self.slice.get_union::<MyUnion>(119)
    }

    /// Writes a new table, every field at its default, for `child`.
    pub fn child(&mut self, arena: &mut PArena) -> (r: SimpleOut)
        requires
            old(self).ready(old(arena)),
            room(old(arena).bytes().len() as int, 137),
        ensures
            *final(self) == *old(self),
            final(arena).grown_from(*old(arena)),
            final(arena).bytes() == splice(
                old(arena).bytes() + header(0xF0606B0B, 127) + simple_default(),
                TableOut::<Normal>::spec_slice(old(self)).pos(113),
                le_bytes(old(arena).bytes().len(), 6),
            ),
            r.ready(&*final(arena)),
    {
        self.slice.add_table::<SimpleOut>(arena, 113)
    }
}

/// Byte `i` of a new example table: every field at its default.
pub open spec fn simple_default_byte(i: int) -> u8 {
    if i == 0 {
        255
    } else if i == 43 {
        2
    } else if i == 44 {
        3
    } else if i == 46 {
        4
    } else if i == 50 {
        5
    } else if i == 58 {
        6
    } else if i == 59 {
        7
    } else if i == 61 {
        8
    } else if i == 65 {
        9
    } else {
        0
    }
}

/// The body of a new example table.
pub open spec fn simple_default() -> Seq<u8> {
    Seq::new(127, |i: int| simple_default_byte(i))
}

fn default_byte(i: usize) -> (r: u8)
    ensures
        r == simple_default_byte(i as int),
{
    if i == 0 {
        255
    } else if i == 43 {
        2
    } else if i == 44 {
        3
    } else if i == 46 {
        4
    } else if i == 50 {
        5
    } else if i == 58 {
        6
    } else if i == 59 {
        7
    } else if i == 61 {
        8
    } else if i == 65 {
        9
    } else {
        0
    }
}

impl TableOut<Normal> for SimpleOut {
    open spec fn spec_magic() -> u32 {
        0xF0606B0B
    }

    open spec fn spec_size() -> nat {
        127
    }

    open spec fn spec_default() -> Seq<u8> {
        simple_default()
    }

    closed spec fn spec_slice(&self) -> ArenaSlice {
        self.slice
    }

    fn magic() -> (r: u32) {
        0xF0606B0B
    }

    fn size() -> (r: usize) {
        127
    }

    fn default() -> (r: Vec<u8>) {
        let mut v: Vec<u8> = Vec::new();
        let mut i: usize = 0;
        while i < 127
            invariant
                i <= 127,
                v@ == simple_default().take(i as int),
            decreases 127 - i,
        {
            v.push(default_byte(i));
            i = i + 1;
            assert(v@ =~= simple_default().take(i as int));
        }
        assert(simple_default().take(127) =~= simple_default());
        v
    }

    fn new(slice: ArenaSlice) -> (r: Self) {
        SimpleOut { slice }
    }

    fn offset(&self) -> (r: usize) {
        self.slice.get_offset()
    }

    fn arena(&self) -> (r: u64) {
        self.slice.arena_id()
    }
}

/// The example table can also be stored in place after its container.
impl TableOut<Inplace> for SimpleOut {
    open spec fn spec_magic() -> u32 {
        0xF0606B0B
    }

    open spec fn spec_size() -> nat {
        127
    }

    open spec fn spec_default() -> Seq<u8> {
        simple_default()
    }

    closed spec fn spec_slice(&self) -> ArenaSlice {
        self.slice
    }

    fn magic() -> (r: u32) {
        0xF0606B0B
    }

    fn size() -> (r: usize) {
        127
    }

    fn default() -> (r: Vec<u8>) {
        let mut v: Vec<u8> = Vec::new();
        let mut i: usize = 0;
        while i < 127
            invariant
                i <= 127,
                v@ == simple_default().take(i as int),
            decreases 127 - i,
        {
            v.push(default_byte(i));
            i = i + 1;
            assert(v@ =~= simple_default().take(i as int));
        }
        assert(simple_default().take(127) =~= simple_default());
        v
    }

    fn new(slice: ArenaSlice) -> (r: Self) {
        SimpleOut { slice }
    }

    fn offset(&self) -> (r: usize) {
        self.slice.get_offset()
    }

    fn arena(&self) -> (r: u64) {
        self.slice.arena_id()
    }
}

/// The example table type.
pub struct Simple {}

impl<'a> Table<'a> for Simple {
    type In = SimpleIn<'a>;

    type Out = SimpleOut;
}

/// The example struct type.
pub struct MyStruct {}

impl Struct for MyStruct {
    type Out = MyStructOut;
}

/// The example struct type with a field of every fixed kind.
pub struct FullStruct {}

impl Struct for FullStruct {
    type Out = FullStructOut;
}

/// The example union as read: none, a text, or a child table.
pub enum MyUnionIn<'a> {
    NONE,
    Text(&'a str),
    Child(SimpleIn<'a>),
}

impl<'a> UnionIn<'a> for MyUnionIn<'a> {
    open spec fn spec_new(
        t: u16,
        magic: Option<u32>,
        offset: usize,
        size: usize,
        reader: Reader<'a>,
        r: Result<Self, Error>,
    ) -> bool {
        if t == 0 {
            r matches Ok(MyUnionIn::NONE)
        } else if t == 1 {
            match r {
                Ok(MyUnionIn::Text(s)) => reader.text_ok(magic, offset as int, size as int, Ok(s)),
                Err(e) => reader.text_ok(magic, offset as int, size as int, Err(e)),
                _ => false,
            }
        } else if t == 2 {
            match r {
                Ok(MyUnionIn::Child(c)) => reader.check_object(
                    magic,
                    0xF0606B0B,
                    offset as int,
                    size as int,
                ) is Ok && c.spec_reader() == reader.at(offset as int, size as int),
                Err(e) => reader.check_object(magic, 0xF0606B0B, offset as int, size as int) == Err::<
                    (),
                    Error,
                >(e),
                _ => false,
            }
        } else {
            r == Err::<Self, Error>(Error::BadUnion(t))
        }
    }

    fn new(t: u16, magic: Option<u32>, offset: usize, size: usize, reader: &Reader<'a>) -> (r:
        Result<Self, Error>) {
        if t == 0 {
            Ok(MyUnionIn::NONE)
        } else if t == 1 {
            match reader.get_text_union(magic, offset, size) {
                Ok(s) => Ok(MyUnionIn::Text(s)),
                Err(e) => Err(e),
            }
        } else if t == 2 {
            match reader.get_table_union::<SimpleIn<'a>>(magic, offset, size) {
                Ok(c) => Ok(MyUnionIn::Child(c)),
                Err(e) => Err(e),
            }
        } else {
            Err(Error::BadUnion(t))
        }
    }
}

/// The example union type.
pub struct MyUnion {}

/// The example union as written.
pub struct MyUnionOut {
    slice: ArenaSlice,
}

/// The example union as written with its payload in place after its container.
pub struct MyUnionInplaceOut {
    slice: ArenaSlice,
    end: usize,
}

impl Union for MyUnion {
    type Out = MyUnionOut;

    type InplaceOut = MyUnionInplaceOut;

    open spec fn out_slice(o: &MyUnionOut) -> ArenaSlice {
        o.spec_slice()
    }

    open spec fn inplace_slice(o: &MyUnionInplaceOut) -> (ArenaSlice, usize) {
        (o.spec_slice(), o.spec_end())
    }

    fn new_out(slice: ArenaSlice) -> (r: MyUnionOut) {
        MyUnionOut { slice }
    }

    fn new_inplace_out(slice: ArenaSlice, container_end: usize) -> (r: MyUnionInplaceOut) {
        MyUnionInplaceOut { slice, end: container_end }
    }
}

impl MyUnionOut {
    pub closed spec fn spec_slice(&self) -> ArenaSlice {
        self.slice
    }

    /// Whether the handle can be written through `arena`.
    pub open spec fn ready(&self, arena: &PArena) -> bool {
        &&& self.spec_slice().within(arena)
        &&& self.spec_slice().spec_length() == 8
    }

    /// Makes the union hold a new text `v`.
    pub fn text(&mut self, arena: &mut PArena, v: &str) -> (r: TextOut)
        requires
            old(self).ready(old(arena)),
            room(old(arena).bytes().len() as int, 11 + v.spec_bytes().len() as int),
        ensures
            *final(self) == *old(self),
            final(arena).grown_from(*old(arena)),
            final(arena).bytes() == splice(
                splice(old(arena).bytes(), old(self).spec_slice().pos(0), u16::spec_encode(1u16))
                    + header(TEXTMAGIC, v.spec_bytes().len()) + v.spec_bytes() + seq![0u8],
                old(self).spec_slice().pos(2),
                le_bytes(old(arena).bytes().len(), 6),
            ),
    {
        self.slice.set_pod(arena, 0, &1u16);
        self.slice.add_text(arena, 2, v)
    }

    /// Makes the union hold a new child table, every field at its default.
    pub fn child(&mut self, arena: &mut PArena) -> (r: SimpleOut)
        requires
            old(self).ready(old(arena)),
            room(old(arena).bytes().len() as int, 137),
        ensures
            *final(self) == *old(self),
            final(arena).grown_from(*old(arena)),
            final(arena).bytes() == splice(
                splice(old(arena).bytes(), old(self).spec_slice().pos(0), u16::spec_encode(2u16))
                    + header(0xF0606B0B, 127) + simple_default(),
                old(self).spec_slice().pos(2),
                le_bytes(old(arena).bytes().len(), 6),
            ),
            r.ready(&*final(arena)),
    {
        self.slice.set_pod(arena, 0, &2u16);
        self.slice.add_table::<SimpleOut>(arena, 2)
    }
}

impl MyUnionInplaceOut {
    pub closed spec fn spec_slice(&self) -> ArenaSlice {
        self.slice
    }

    /// Where the container ends: the payload goes right there.
    pub closed spec fn spec_end(&self) -> usize {
        self.end
    }

    /// Makes the union hold text `v`, stored in place after the container;
    /// the arena must end where the container does.
    pub fn text(&mut self, arena: &mut PArena, v: &str)
        requires
            old(self).spec_slice().within(old(arena)),
            old(self).spec_slice().spec_length() == 8,
            old(self).spec_end() == old(arena).bytes().len(),
            room(old(arena).bytes().len() as int, 1 + v.spec_bytes().len() as int),
        ensures
            *final(self) == *old(self),
            final(arena).grown_from(*old(arena)),
            final(arena).bytes() == splice(
                splice(old(arena).bytes(), old(self).spec_slice().pos(0), u16::spec_encode(1u16))
                    + v.spec_bytes() + seq![0u8],
                old(self).spec_slice().pos(2),
                le_bytes(v.spec_bytes().len(), 6),
            ),
    {
        self.slice.set_pod(arena, 0, &1u16);
        self.slice.add_text_inplace(arena, 2, v, Some(self.end));
    }
}

impl<'a> CopyIn<MyStructIn<'a>> for MyStructOut {
    open spec fn copy_ready(&self, arena: &PArena, i: &MyStructIn<'a>) -> bool {
        &&& self.ready(arena)
        &&& StructIn::spec_reader(i).wf()
    }

    open spec fn copied(
        &self,
        old: &PArena,
        new: &PArena,
        i: &MyStructIn<'a>,
        r: Result<(), Error>,
    ) -> bool {
        let rd = StructIn::spec_reader(i);
        let at = StructOut::spec_slice(self);
        &&& r is Ok
        &&& new.rewritten(*old)
        &&& new.bytes() == splice(
            splice(old.bytes(), at.pos(0), u32::spec_encode(pod_or::<u32>(rd, 0, 0))),
            at.pos(4),
            i32::spec_encode(pod_or::<i32>(rd, 4, 0)),
        ).update(
            at.pos(8),
            if byte_or(rd, 8, 0) != 0 {
                1u8
            } else {
                0u8
            },
        )
    }

    fn copy_in(&mut self, arena: &mut PArena, i: MyStructIn<'a>) -> (r: Result<(), Error>) {
        self.x(arena, i.x());
        self.y(arena, i.y());
        self.z(arena, i.z());
        Ok(())
    }
}

/// An example table that was created and never set reads every field as its
/// schema default: the enumeration as unknown, the scalars as `2` to `9`,
/// and every optional field as absent.
pub proof fn lemma_fresh_simple_defaults<'a>(rd: Reader<'a>)
    requires
        rd.wf(),
        rd.part() == simple_default(),
    ensures
        enum_of::<MyEnum>(byte_or(rd, 0, 255)) is None,
        pod_or::<u8>(rd, 43, 2) == 2,
        pod_or::<u16>(rd, 44, 3) == 3,
        pod_or::<u32>(rd, 46, 4) == 4,
        pod_or::<u64>(rd, 50, 5) == 5,
        pod_or::<i8>(rd, 58, 6) == 6,
        pod_or::<i16>(rd, 59, 7) == 7,
        pod_or::<i32>(rd, 61, 8) == 8,
        pod_or::<i64>(rd, 65, 9) == 9,
        !bit_of(byte_or(rd, 42, 0), 0),
        !bit_of(byte_or(rd, 42, 0), 1),
        !bit_of(byte_or(rd, 42, 0), 2),
        !bit_of(byte_or(rd, 42, 0), 4),
        !bit_of(byte_or(rd, 42, 0), 5),
        !bit_of(byte_or(rd, 42, 0), 6),
{
    reveal_with_fuel(le_value, 9);
    let p = rd.part();
    assert(p.subrange(43, 44) =~= seq![2u8]);
    assert(p.subrange(44, 46) =~= seq![3u8, 0]);
    assert(p.subrange(46, 50) =~= seq![4u8, 0, 0, 0]);
    assert(p.subrange(50, 58) =~= seq![5u8, 0, 0, 0, 0, 0, 0, 0]);
    assert(p.subrange(58, 59) =~= seq![6u8]);
    assert(p.subrange(59, 61) =~= seq![7u8, 0]);
    assert(p.subrange(61, 65) =~= seq![8u8, 0, 0, 0]);
    assert(p.subrange(65, 73) =~= seq![9u8, 0, 0, 0, 0, 0, 0, 0]);
    assert(p[42] == 0u8);
    assert(!bit_of(0u8, 0) && !bit_of(0u8, 1) && !bit_of(0u8, 2) && !bit_of(0u8, 4) && !bit_of(
        0u8,
        5,
    ) && !bit_of(0u8, 6)) by (bit_vector);
}

/// An optional field set on a written example table reads back as present
/// with the value that was set.
pub proof fn lemma_optional_round_trip<'a>(rd: Reader<'a>, b: Seq<u8>, v: u16)
    requires
        rd.wf(),
        rd.region_len() == 127,
        b.len() == rd.data().len(),
        rd.data() == splice(
            b.update(rd.start() + 42 as int, with_bit(b[rd.start() + 42 as int], 5, true)),
            rd.start() + 83 as int,
            u16::spec_encode(v),
        ),
    ensures
        bit_of(byte_or(rd, 42, 0), 5),
        pod_or::<u16>(rd, 83, 0) == v,
{
    let p = rd.start() + 42 as int;
    let mid = b.update(p, with_bit(b[p], 5, true));
    lemma_pod_round_trip::<u16>(rd, mid, 83, v);
    u16::lemma_round_trip(v);
    assert(rd.data()[p] == mid[p]);
    assert(rd.part()[42] == rd.data()[p]);
    lemma_with_bit(b[p], 5, true, 5);
}

} // verus!
