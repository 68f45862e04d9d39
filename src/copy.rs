//! Copying values read from one message into a message being written.

use vstd::prelude::*;
use crate::arena::{fits48, header, room, PArena, Placement};
use crate::codec::{bit_of, le_bytes, lemma_with_bit, le_value, lemma_le_bytes_len, lemma_le_round_trip, lemma_pow256_values, splice, BYTESMAGIC, TEXTMAGIC};
use crate::error::Error;
use crate::laws::{lemma_splice_frame, lemma_splice_read};
use crate::list_in::{BoolListRead, BytesListRead, EnumListRead, ListIn, PodListRead, TextListRead};
use crate::list_out::{BoolListWrite, BytesListWrite, EnumListWrite, ListOut, PodListWrite, TextListWrite};
use vstd::string::StringSliceAdditionalSpecFns;
use crate::pod::{enum_byte, Enum, Pod};

verus! {

/// A handle being written that can take its contents from a value read
/// from another message.
pub trait CopyIn<In> {
    /// Whether the copy can start: the handle and the value agree in shape.
    spec fn copy_ready(&self, arena: &PArena, i: &In) -> bool;

    /// Whether `new` holds the copy of `i`, starting from `old`.
    spec fn copied(&self, old: &PArena, new: &PArena, i: &In, r: Result<(), Error>) -> bool;

    fn copy_in(&mut self, arena: &mut PArena, i: In) -> (r: Result<(), Error>)
        requires
            old(self).copy_ready(old(arena), &i),
        ensures
            old(self).copied(old(arena), final(arena), &i, r),
    ;
}

proof fn lemma_slots_apart(w: int, k: int, n: int)
    requires
        0 < w,
        0 <= k < n,
    ensures
        k * w + w <= n * w,
{
    assert(k * w + w <= n * w) by (nonlinear_arith)
        requires
            0 < w,
            k < n,
    ;
}

impl<'b, T: Pod, P: Placement> CopyIn<ListIn<'b, PodListRead<T>>> for ListOut<PodListWrite<T>, P> {
    open spec fn copy_ready(&self, arena: &PArena, i: &ListIn<'b, PodListRead<T>>) -> bool {
        &&& self.ready(arena)
        &&& i.wf()
        &&& i.spec_len() == self.spec_len()
    }

    open spec fn copied(
        &self,
        old: &PArena,
        new: &PArena,
        i: &ListIn<'b, PodListRead<T>>,
        r: Result<(), Error>,
    ) -> bool {
        &&& r is Ok
        &&& new.rewritten(*old)
        &&& forall|k: int|
            #![trigger i.spec_reader().pod_at::<T>(k * T::spec_width())]
            0 <= k < self.spec_len() ==> new.bytes().subrange(
                self.spec_slice().pos(k * T::spec_width()),
                self.spec_slice().pos(k * T::spec_width()) + T::spec_width(),
            ) == T::spec_encode(i.spec_reader().pod_at::<T>(k * T::spec_width())->0)
    }

    fn copy_in(&mut self, arena: &mut PArena, i: ListIn<'b, PodListRead<T>>) -> (r: Result<
        (),
        Error,
    >) {
        let n = i.len();
        let ghost w = T::spec_width() as int;
        let ghost base = self.spec_slice().pos(0);
        let mut k: usize = 0;
        proof {
            T::lemma_round_trip(arbitrary());
        }
        while k < n
            invariant
                k <= n == i.spec_len() == self.spec_len(),
                *self == *old(self),
                i.wf(),
                self.ready(arena),
                arena.rewritten(*old(arena)),
                w == T::spec_width(),
                1 <= w <= 8,
                base == self.spec_slice().pos(0),
                forall|j: int|
                    #![trigger i.spec_reader().pod_at::<T>(j * w)]
                    0 <= j < k ==> arena.bytes().subrange(base + j * w, base + j * w + w)
                        == T::spec_encode(i.spec_reader().pod_at::<T>(j * w)->0),
            decreases n - k,
        {
            let v = i.get(k);
            proof {
                T::lemma_round_trip(v);
            }
            let ghost before = arena.bytes();
            self.set(arena, k, v);
            proof {
                lemma_slots_apart(w, k as int, n as int);
                lemma_splice_read(before, base + k * w, T::spec_encode(v));
                assert forall|j: int|
                    #![trigger i.spec_reader().pod_at::<T>(j * w)]
                    0 <= j < k + 1 implies arena.bytes().subrange(base + j * w, base + j * w + w)
                        == T::spec_encode(i.spec_reader().pod_at::<T>(j * w)->0) by {
                    if j < k {
                        lemma_slots_apart(w, j, k as int);
                        lemma_splice_frame(before, base + k * w, T::spec_encode(v), base + j * w, w);
                    }
                }
            }
            k = k + 1;
        }
        Ok(())
    }
}

impl<'b, T: Enum, P: Placement> CopyIn<ListIn<'b, EnumListRead<T>>> for ListOut<EnumListWrite<T>, P> {
    open spec fn copy_ready(&self, arena: &PArena, i: &ListIn<'b, EnumListRead<T>>) -> bool {
        &&& self.ready(arena)
        &&& i.wf()
        &&& i.spec_len() == self.spec_len()
    }

    open spec fn copied(
        &self,
        old: &PArena,
        new: &PArena,
        i: &ListIn<'b, EnumListRead<T>>,
        r: Result<(), Error>,
    ) -> bool {
        &&& r is Ok
        &&& new.rewritten(*old)
        &&& forall|k: int|
            0 <= k < self.spec_len() ==> #[trigger] new.bytes()[self.spec_slice().pos(k)]
                == enum_byte(crate::pod::enum_of::<T>(i.spec_reader().part()[k]))
    }

    fn copy_in(&mut self, arena: &mut PArena, i: ListIn<'b, EnumListRead<T>>) -> (r: Result<
        (),
        Error,
    >) {
        let n = i.len();
        let mut k: usize = 0;
        while k < n
            invariant
                k <= n == i.spec_len() == self.spec_len(),
                *self == *old(self),
                i.wf(),
                self.ready(arena),
                arena.rewritten(*old(arena)),
                forall|j: int|
                    0 <= j < k ==> #[trigger] arena.bytes()[self.spec_slice().pos(j)] == enum_byte(
                        crate::pod::enum_of::<T>(i.spec_reader().part()[j]),
                    ),
            decreases n - k,
        {
            let v = i.get(k);
            self.set(arena, k, v);
            k = k + 1;
        }
        Ok(())
    }
}

/// Appending and then pointing a slot leaves other bytes of the old arena as they were.
proof fn lemma_linked_frame(before: Seq<u8>, obj: Seq<u8>, p: int, x: int, y: int)
    requires
        0 <= x <= y <= before.len(),
        0 <= p,
        p + 6 <= before.len(),
        y <= p || p + 6 <= x,
    ensures
        splice(before + obj, p, le_bytes(before.len(), 6)).subrange(x, y) == before.subrange(x, y),
{
    lemma_le_bytes_len(before.len(), 6);
    assert(splice(before + obj, p, le_bytes(before.len(), 6)).subrange(x, y) =~= before.subrange(
        x,
        y,
    ));
}

proof fn lemma_room_step(start: int, k: int, n: int, d: int, cur: int, add: int)
    requires
        0 <= k < n,
        0 <= d,
        0 <= add <= 11 + d,
        cur <= start + k * (11 + d),
    ensures
        cur + add <= start + (k + 1) * (11 + d),
        start + (k + 1) * (11 + d) <= start + n * (11 + d),
{
    assert(k * (11 + d) + (11 + d) == (k + 1) * (11 + d)) by (nonlinear_arith);
    assert((k + 1) * (11 + d) <= n * (11 + d)) by (nonlinear_arith)
        requires
            k + 1 <= n,
            0 <= d,
    ;
}

/// Whether the six bytes at `slot` of `bytes` refer to a text object, placed
/// at or after `from`, whose body is `t`.
pub open spec fn text_object_at(bytes: Seq<u8>, slot: int, from: int, t: Seq<u8>) -> bool {
    let h = le_value(bytes.subrange(slot, slot + 6)) as int;
    &&& from <= h
    &&& h + 11 + t.len() <= bytes.len()
    &&& bytes.subrange(h, h + 10) == header(TEXTMAGIC, t.len())
    &&& bytes.subrange(h + 10, h + 10 + t.len()) == t
}

/// What slot `k` of a text list holds after its item `out` was copied in:
/// a new text object with the same body, or, for none, what it held before.
pub open spec fn text_slot_copied<'b>(
    old: Seq<u8>,
    new: Seq<u8>,
    slot: int,
    from: int,
    out: Result<Option<&'b str>, Error>,
) -> bool {
    match out {
        Ok(Some(s)) => text_object_at(new, slot, from, s.spec_bytes()),
        Ok(None) => new.subrange(slot, slot + 6) == old.subrange(slot, slot + 6),
        Err(_) => false,
    }
}

impl<'b, P: Placement> CopyIn<ListIn<'b, TextListRead>> for ListOut<TextListWrite, P> {
    open spec fn copy_ready(&self, arena: &PArena, i: &ListIn<'b, TextListRead>) -> bool {
        &&& self.ready(arena)
        &&& i.wf()
        &&& i.spec_len() == self.spec_len()
        &&& room(
            arena.bytes().len() as int,
            (self.spec_len() * (11 + i.spec_reader().data().len())) as int,
        )
    }

    open spec fn copied(
        &self,
        old: &PArena,
        new: &PArena,
        i: &ListIn<'b, TextListRead>,
        r: Result<(), Error>,
    ) -> bool {
        &&& new.grown_from(*old)
        &&& r is Ok ==> forall|k: int, out: Result<Option<&'b str>, Error>|
            0 <= k < self.spec_len() && #[trigger] i.item(k as nat, out) ==> text_slot_copied(
                old.bytes(),
                new.bytes(),
                self.spec_slice().pos(k * 6),
                old.bytes().len() as int,
                out,
            )
        &&& r matches Err(e) ==> exists|k: int|
            0 <= k < self.spec_len() && #[trigger] i.item(k as nat, Err(e))
    }

    fn copy_in(&mut self, arena: &mut PArena, i: ListIn<'b, TextListRead>) -> (r: Result<
        (),
        Error,
    >) {
        let n = i.len();
        let ghost start = arena.bytes();
        let ghost d = i.spec_reader().data().len() as int;
        let ghost base = self.spec_slice().pos(0);
        let mut k: usize = 0;
        while k < n
            invariant
                k <= n == i.spec_len() == self.spec_len(),
                *self == *old(self),
                i.wf(),
                start == old(arena).bytes(),
                base == self.spec_slice().pos(0),
                d == i.spec_reader().data().len(),
                self.spec_slice().spec_length() == n * 6,
                base + n * 6 <= start.len(),
                self.ready(arena),
                arena.grown_from(*old(arena)),
                arena.bytes().len() <= start.len() + k * (11 + d),
                room(start.len() as int, n * (11 + d)),
                forall|j: int| #![trigger arena.bytes()[j]]
                    0 <= j < start.len() && !(base <= j < base + k * 6) ==> arena.bytes()[j] == start[j],
                forall|j: int, out: Result<Option<&'b str>, Error>|
                    0 <= j < k && #[trigger] i.item(j as nat, out) ==> text_slot_copied(
                        start,
                        arena.bytes(),
                        base + j * 6,
                        start.len() as int,
                        out,
                    ),
            decreases n - k,
        {
            let v = i.get(k);
            let ghost before = arena.bytes();
            let ghost slot = base + k * 6;
            proof {
                lemma_slots_apart(6, k as int, n as int);
                lemma_room_step(start.len() as int, k as int, n as int, d, before.len() as int, 0);
            }
            match v {
                Err(e) => {
                    proof {
                        let kk: int = k as int;
                        assert(i.item(kk as nat, Err(e)));
                    }
                    return Err(e);
                },
                Ok(None) => {
                    proof {
                        assert forall|j: int, out: Result<Option<&'b str>, Error>|
                            0 <= j < k + 1 && #[trigger] i.item(j as nat, out) implies text_slot_copied(
                            start,
                            arena.bytes(),
                            base + j * 6,
                            start.len() as int,
                            out,
                        ) by {
                            if j == k {
                                assert(arena.bytes().subrange(slot, slot + 6) =~= start.subrange(
                                    slot,
                                    slot + 6,
                                ));
                            }
                        }
                    }
                },
                Ok(Some(s)) => {
                    let ghost t = s.spec_bytes();
                    proof {
                        lemma_room_step(
                            start.len() as int,
                            k as int,
                            n as int,
                            d,
                            before.len() as int,
                            11 + t.len() as int,
                        );
                    }
                    self.add(arena, k, s);
                    proof {
                        let obj = header(TEXTMAGIC, t.len()) + t + seq![0u8];
                        let new = arena.bytes();
                        let h = before.len() as int;
                        assert(before + header(TEXTMAGIC, t.len()) + t + seq![0u8] =~= before + obj);
                        lemma_le_bytes_len(TEXTMAGIC as nat, 4);
                        lemma_le_bytes_len(t.len(), 6);
                        lemma_le_bytes_len(before.len(), 6);
                        lemma_pow256_values();
                        lemma_le_round_trip(before.len(), 6);
                        assert(new.subrange(slot, slot + 6) =~= le_bytes(before.len(), 6));
                        assert(new.subrange(h, h + 10) =~= header(TEXTMAGIC, t.len()));
                        assert(new.subrange(h + 10, h + 10 + t.len()) =~= t);
                        assert forall|j: int| #![trigger new[j]]
                            0 <= j < start.len() && !(base <= j < base + (k + 1) * 6) implies new[j]
                            == start[j] by {
                            assert(new[j] == before[j]);
                        }
                        assert forall|j: int, out: Result<Option<&'b str>, Error>|
                            0 <= j < k + 1 && #[trigger] i.item(j as nat, out) implies text_slot_copied(
                            start,
                            new,
                            base + j * 6,
                            start.len() as int,
                            out,
                        ) by {
                            if j == k {
                                let rd = i.spec_reader();
                                assert(rd.text_field(k * 6, out));
                                assert(rd.text_field(k * 6, v));
                                assert(out matches Ok(Some(sv)) && sv.spec_bytes() == t);
                                assert(text_object_at(new, slot, start.len() as int, t));
                            }
                            if j < k {
                                lemma_slots_apart(6, j, k as int);
                                let sj = base + j * 6;
                                lemma_linked_frame(before, obj, slot, sj, sj + 6);
                                if let Ok(Some(sv)) = out {
                                    let hj = le_value(before.subrange(sj, sj + 6)) as int;
                                    let tl = sv.spec_bytes().len() as int;
                                    lemma_linked_frame(before, obj, slot, hj, hj + 10);
                                    lemma_linked_frame(before, obj, slot, hj + 10, hj + 10 + tl);
                                    assert(text_object_at(new, sj, start.len() as int, sv.spec_bytes()));
                                }
                            }
                        }
                    }
                },
            }
            k = k + 1;
        }
        Ok(())
    }
}

/// Whether the six bytes at `slot` of `bytes` refer to a bytes object, placed
/// at or after `from`, whose body is `t`.
pub open spec fn blob_object_at(bytes: Seq<u8>, slot: int, from: int, t: Seq<u8>) -> bool {
    let h = le_value(bytes.subrange(slot, slot + 6)) as int;
    &&& from <= h
    &&& h + 10 + t.len() <= bytes.len()
    &&& bytes.subrange(h, h + 10) == header(BYTESMAGIC, t.len())
    &&& bytes.subrange(h + 10, h + 10 + t.len()) == t
}

/// What slot `k` of a bytes list holds after its item `out` was copied in:
/// a new bytes object with the same body, or, for none, what it held before.
pub open spec fn blob_slot_copied<'b>(
    old: Seq<u8>,
    new: Seq<u8>,
    slot: int,
    from: int,
    out: Result<Option<&'b [u8]>, Error>,
) -> bool {
    match out {
        Ok(Some(s)) => blob_object_at(new, slot, from, s@),
        Ok(None) => new.subrange(slot, slot + 6) == old.subrange(slot, slot + 6),
        Err(_) => false,
    }
}

impl<'b, P: Placement> CopyIn<ListIn<'b, BytesListRead>> for ListOut<BytesListWrite, P> {
    open spec fn copy_ready(&self, arena: &PArena, i: &ListIn<'b, BytesListRead>) -> bool {
        &&& self.ready(arena)
        &&& i.wf()
        &&& i.spec_len() == self.spec_len()
        &&& room(
            arena.bytes().len() as int,
            (self.spec_len() * (11 + i.spec_reader().data().len())) as int,
        )
    }

    open spec fn copied(
        &self,
        old: &PArena,
        new: &PArena,
        i: &ListIn<'b, BytesListRead>,
        r: Result<(), Error>,
    ) -> bool {
        &&& new.grown_from(*old)
        &&& r is Ok ==> forall|k: int, out: Result<Option<&'b [u8]>, Error>|
            0 <= k < self.spec_len() && #[trigger] i.item(k as nat, out) ==> blob_slot_copied(
                old.bytes(),
                new.bytes(),
                self.spec_slice().pos(k * 6),
                old.bytes().len() as int,
                out,
            )
        &&& r matches Err(e) ==> exists|k: int|
            0 <= k < self.spec_len() && #[trigger] i.item(k as nat, Err(e))
    }

    fn copy_in(&mut self, arena: &mut PArena, i: ListIn<'b, BytesListRead>) -> (r: Result<
        (),
        Error,
    >) {
        let n = i.len();
        let ghost start = arena.bytes();
        let ghost d = i.spec_reader().data().len() as int;
        let ghost base = self.spec_slice().pos(0);
        let mut k: usize = 0;
        while k < n
            invariant
                k <= n == i.spec_len() == self.spec_len(),
                *self == *old(self),
                i.wf(),
                start == old(arena).bytes(),
                base == self.spec_slice().pos(0),
                d == i.spec_reader().data().len(),
                self.spec_slice().spec_length() == n * 6,
                base + n * 6 <= start.len(),
                self.ready(arena),
                arena.grown_from(*old(arena)),
                arena.bytes().len() <= start.len() + k * (11 + d),
                room(start.len() as int, n * (11 + d)),
                forall|j: int| #![trigger arena.bytes()[j]]
                    0 <= j < start.len() && !(base <= j < base + k * 6) ==> arena.bytes()[j] == start[j],
                forall|j: int, out: Result<Option<&'b [u8]>, Error>|
                    0 <= j < k && #[trigger] i.item(j as nat, out) ==> blob_slot_copied(
                        start,
                        arena.bytes(),
                        base + j * 6,
                        start.len() as int,
                        out,
                    ),
            decreases n - k,
        {
            let v = i.get(k);
            let ghost before = arena.bytes();
            let ghost slot = base + k * 6;
            proof {
                lemma_slots_apart(6, k as int, n as int);
                lemma_room_step(start.len() as int, k as int, n as int, d, before.len() as int, 0);
            }
            match v {
                Err(e) => {
                    proof {
                        let kk: int = k as int;
                        assert(i.item(kk as nat, Err(e)));
                    }
                    return Err(e);
                },
                Ok(None) => {
                    proof {
                        assert forall|j: int, out: Result<Option<&'b [u8]>, Error>|
                            0 <= j < k + 1 && #[trigger] i.item(j as nat, out) implies blob_slot_copied(
                            start,
                            arena.bytes(),
                            base + j * 6,
                            start.len() as int,
                            out,
                        ) by {
                            if j == k {
                                assert(arena.bytes().subrange(slot, slot + 6) =~= start.subrange(
                                    slot,
                                    slot + 6,
                                ));
                            }
                        }
                    }
                },
                Ok(Some(s)) => {
                    let ghost t = s@;
                    proof {
                        lemma_room_step(
                            start.len() as int,
                            k as int,
                            n as int,
                            d,
                            before.len() as int,
                            10 + t.len() as int,
                        );
                    }
                    self.add(arena, k, s);
                    proof {
                        let obj = header(BYTESMAGIC, t.len()) + t;
                        let new = arena.bytes();
                        let h = before.len() as int;
                        assert(before + header(BYTESMAGIC, t.len()) + t =~= before + obj);
                        lemma_le_bytes_len(BYTESMAGIC as nat, 4);
                        lemma_le_bytes_len(t.len(), 6);
                        lemma_le_bytes_len(before.len(), 6);
                        lemma_pow256_values();
                        lemma_le_round_trip(before.len(), 6);
                        assert(new.subrange(slot, slot + 6) =~= le_bytes(before.len(), 6));
                        assert(new.subrange(h, h + 10) =~= header(BYTESMAGIC, t.len()));
                        assert(new.subrange(h + 10, h + 10 + t.len()) =~= t);
                        assert forall|j: int| #![trigger new[j]]
                            0 <= j < start.len() && !(base <= j < base + (k + 1) * 6) implies new[j]
                            == start[j] by {
                            assert(new[j] == before[j]);
                        }
                        assert forall|j: int, out: Result<Option<&'b [u8]>, Error>|
                            0 <= j < k + 1 && #[trigger] i.item(j as nat, out) implies blob_slot_copied(
                            start,
                            new,
                            base + j * 6,
                            start.len() as int,
                            out,
                        ) by {
                            if j == k {
                                let rd = i.spec_reader();
                                assert(rd.blob_field(k * 6, out));
                                assert(rd.blob_field(k * 6, v));
                                assert(out matches Ok(Some(sv)) && sv@ == t);
                                assert(blob_object_at(new, slot, start.len() as int, t));
                            }
                            if j < k {
                                lemma_slots_apart(6, j, k as int);
                                let sj = base + j * 6;
                                lemma_linked_frame(before, obj, slot, sj, sj + 6);
                                if let Ok(Some(sv)) = out {
                                    let hj = le_value(before.subrange(sj, sj + 6)) as int;
                                    let tl = sv@.len() as int;
                                    lemma_linked_frame(before, obj, slot, hj, hj + 10);
                                    lemma_linked_frame(before, obj, slot, hj + 10, hj + 10 + tl);
                                    assert(blob_object_at(new, sj, start.len() as int, sv@));
                                }
                            }
                        }
                    }
                },
            }
            k = k + 1;
        }
        Ok(())
    }
}

impl<'b, P: Placement> CopyIn<ListIn<'b, BoolListRead>> for ListOut<BoolListWrite, P> {
    open spec fn copy_ready(&self, arena: &PArena, i: &ListIn<'b, BoolListRead>) -> bool {
        &&& self.ready(arena)
        &&& i.wf()
        &&& i.spec_len() == self.spec_len()
    }

    open spec fn copied(
        &self,
        old: &PArena,
        new: &PArena,
        i: &ListIn<'b, BoolListRead>,
        r: Result<(), Error>,
    ) -> bool {
        &&& r is Ok
        &&& new.rewritten(*old)
        &&& forall|k: int|
            0 <= k < self.spec_len() ==> #[trigger] bit_of(
                new.bytes()[self.spec_slice().pos(k / 8)],
                (k % 8) as u8,
            ) == bit_of(i.spec_reader().part()[k / 8], (k % 8) as u8)
    }

    fn copy_in(&mut self, arena: &mut PArena, i: ListIn<'b, BoolListRead>) -> (r: Result<
        (),
        Error,
    >) {
        let n = i.len();
        let ghost base = self.spec_slice().pos(0);
        let mut k: usize = 0;
        while k < n
            invariant
                k <= n == i.spec_len() == self.spec_len(),
                *self == *old(self),
                i.wf(),
                self.ready(arena),
                arena.rewritten(*old(arena)),
                base == self.spec_slice().pos(0),
                forall|j: int|
                    0 <= j < k ==> #[trigger] bit_of(arena.bytes()[base + j / 8], (j % 8) as u8)
                        == bit_of(i.spec_reader().part()[j / 8], (j % 8) as u8),
            decreases n - k,
        {
            let v = i.get(k);
            let ghost before = arena.bytes();
            self.set(arena, k, v);
            proof {
                assert forall|j: int|
                    0 <= j < k + 1 implies #[trigger] bit_of(arena.bytes()[base + j / 8], (j % 8) as u8)
                        == bit_of(i.spec_reader().part()[j / 8], (j % 8) as u8) by {
                    let kb = base + k / 8;
                    if j < k {
                        if j / 8 == k / 8 {
                            lemma_with_bit(before[kb], (k % 8) as u8, v, (j % 8) as u8);
                        }
                    } else {
                        lemma_with_bit(before[kb], (k % 8) as u8, v, (k % 8) as u8);
                    }
                }
            }
            k = k + 1;
        }
        Ok(())
    }
}

} // verus!
