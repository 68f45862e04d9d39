//! Whole messages: the root table behind the message header.

use vstd::prelude::*;
use crate::arena::{Normal, TableOut};
use crate::codec::{le_value, lemma_le_value_bound, lemma_pow256_values, read_le, ROOTMAGIC};
use crate::error::Error;
use crate::reader::{sat_add, Reader, TableIn};

verus! {

/// A table type of a schema, with its reader and writer handles.
pub trait Table<'a> {
    type In: TableIn<'a>;

    type Out: TableOut<Normal>;
}

/// What a message reads as: a ten-byte header, the message's tag and then
/// the position of the root table's header, then that table.
pub open spec fn root_ok<'a, T: TableIn<'a>>(data: Seq<u8>, r: Result<T, Error>) -> bool {
    if data.len() < 10 {
        r == Err::<T, Error>(Error::InvalidPointer(10, data.len() as usize))
    } else if le_value(data.subrange(0, 4)) as u32 != ROOTMAGIC {
        r == Err::<T, Error>(Error::BadMagic(le_value(data.subrange(0, 4)) as u32, ROOTMAGIC))
    } else {
        let o = le_value(data.subrange(4, 10)) as int;
        if o > usize::MAX {
            r == Err::<T, Error>(Error::Overflow())
        } else if o == 0 {
            r == Err::<T, Error>(Error::InvalidPointer(0, data.len() as usize))
        } else if data.len() < o + 10 {
            r == Err::<T, Error>(Error::InvalidPointer(sat_add(o, 10), data.len() as usize))
        } else {
            let size = le_value(data.subrange(o + 4, o + 10)) as int;
            let magic = le_value(data.subrange(o, o + 4)) as u32;
            if size > usize::MAX {
                r == Err::<T, Error>(Error::Overflow())
            } else if magic != T::spec_magic() {
                r == Err::<T, Error>(Error::BadMagic(magic, T::spec_magic()))
            } else if o + 10 + size > data.len() {
                r == Err::<T, Error>(
                    Error::InvalidPointer(sat_add(o + 10, size), data.len() as usize),
                )
            } else {
                r matches Ok(t) && t.spec_reader().data() == data && t.spec_reader().start() == o
                    + 10 && t.spec_reader().region_len() == size && t.spec_reader().wf()
            }
        }
    }
}

/// Reads the root table of the message in `data`.
pub fn read_message<'a, F: Table<'a>>(data: &'a [u8]) -> (r: Result<F::In, Error>)
    ensures
        root_ok(data@, r),
{
    if data.len() < 10 {
        return Err(Error::InvalidPointer(10, data.len()));
    }
    proof {
        lemma_le_value_bound(data@.subrange(0, 4));
        lemma_pow256_values();
    }
    let magic = read_le(data, 0, 4) as u32;
    if magic != ROOTMAGIC {
        return Err(Error::BadMagic(magic, ROOTMAGIC));
    }
    let r = Reader::new(data, 10);
    proof {
        assert(r.part().subrange(4, 10) =~= data@.subrange(4, 10));
    }
    let res = r.get_table::<F::In>(4);
    proof {
        if let Ok(Some((o, m, sz))) = r.ptr_at(4) {
            if o + sz <= data@.len() {
                r.lemma_at(o as int, sz as int);
            }
        }
    }
    match res {
        Err(e) => Err(e),
        Ok(Some(v)) => Ok(v),
        Ok(None) => Err(Error::InvalidPointer(0, data.len())),
    }
}

} // verus!
