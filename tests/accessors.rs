use scalgoproto::arena::{Arena, PArena, Writer};
use scalgoproto::codec::{read_le, BYTESMAGIC, TEXTMAGIC};
use scalgoproto::copy::CopyIn;
use scalgoproto::error::Error;
use scalgoproto::list_in::{BoolListRead, EnumListRead, PodListRead};
use scalgoproto::message::read_message;
use scalgoproto::pod::{to_bool, to_enum, Pod};
use scalgoproto::reader::Reader;
use scalgoproto::simple::{MyEnum, MyUnionIn, Simple, SimpleIn};

fn fresh() -> Arena {
    Arena::new(Vec::new(), 9)
}

#[test]
fn enum_bytes_at_or_above_count_are_unknown() {
    assert_eq!(to_enum::<MyEnum>(2), Some(MyEnum::C));
    assert_eq!(to_enum::<MyEnum>(3), Some(MyEnum::D));
    assert_eq!(to_enum::<MyEnum>(4), None);
    assert_eq!(to_enum::<MyEnum>(255), None);
    let data = [1u8, 200];
    let r = Reader::new(&data, 2);
    assert_eq!(r.get_enum::<MyEnum>(0, 255), Some(MyEnum::B));
    assert_eq!(r.get_enum::<MyEnum>(1, 255), None);
    assert_eq!(r.get_enum::<MyEnum>(5, 3), Some(MyEnum::D));
}

#[test]
fn bools_read_any_nonzero_as_true() {
    assert!(!to_bool(0));
    assert!(to_bool(1));
    assert!(to_bool(77));
}

#[test]
fn scalars_are_little_endian() {
    let b = [1u8, 2, 3, 4, 5, 6, 7, 8];
    assert_eq!(read_le(&b, 0, 6), 0x060504030201);
    assert_eq!(read_le(&b, 2, 2), 0x0403);
    assert_eq!(<u32 as Pod>::decode(&b, 0), 0x04030201);
    assert_eq!(<i32 as Pod>::decode(&[0xff, 0xff, 0xff, 0xff], 0), -1);
    assert_eq!(<i16 as Pod>::decode(&[0xfe, 0xff], 0), -2);
    assert_eq!(<u64 as Pod>::decode(&b, 0), 0x0807060504030201);
    let mut v = vec![0u8; 10];
    <i64 as Pod>::encode(-3, &mut v, 1);
    assert_eq!(v, vec![0, 0xfd, 0xff, 0xff, 0xff, 0xff, 0xff, 0xff, 0xff, 0]);
    assert_eq!(<i64 as Pod>::decode(&v, 1), -3);
}

#[test]
fn fields_past_a_short_region_read_absent() {
    let data = [5u8, 6, 7];
    let r = Reader::new(&data, 3);
    assert_eq!(r.get_u8(2), Some(7));
    assert_eq!(r.get_u8(3), None);
    assert_eq!(r.get_pod::<u16>(1), Some(0x0706));
    assert_eq!(r.get_pod::<u16>(2), None);
    assert_eq!(r.get_48_usize(0), Ok(None));
    assert_eq!(r.get_ptr(0), Ok(None));
    assert!(r.get_bit(0, 0));
    assert!(!r.get_bit(0, 1));
    assert!(!r.get_bit(9, 0));
}

fn pointer_to(a: &mut PArena, target: usize) -> usize {
    let mut field = a.allocate(6, 0);
    field.set_u48(a, 0, target as u64);
    field.get_offset()
}

#[test]
fn text_read_as_table_is_bad_magic() {
    let mut arena = fresh();
    let a = &mut arena.arena;
    let _pad = a.allocate(10, 0);
    let _t = a.create_text("hello");
    let field = pointer_to(a, 10);
    let data = a.as_slice().to_vec();
    let r = Reader::new(&data, data.len());
    match r.get_table::<SimpleIn>(field) {
        Err(Error::BadMagic(found, expected)) => {
            assert_eq!(found, TEXTMAGIC);
            assert_eq!(expected, 0xF0606B0B);
        }
        _ => panic!("expected a bad magic"),
    }
    assert_eq!(r.get_text(field), Ok(Some("hello")));
}

#[test]
fn invalid_utf8_is_an_error() {
    let mut arena = fresh();
    let a = &mut arena.arena;
    let b = a.create_bytes(&[0xff, 0xfe]);
    let _ = b;
    let data = a.as_slice().to_vec();
    let r = Reader::new(&data, 0);
    assert_eq!(r.get_text_union(None, 10, 2), Err(Error::Utf8()));
    assert_eq!(r.get_bytes_union(Some(BYTESMAGIC), 10, 2), Ok(&[0xffu8, 0xfe][..]));
    assert_eq!(
        r.get_text_union(Some(BYTESMAGIC), 10, 2),
        Err(Error::BadMagic(BYTESMAGIC, TEXTMAGIC))
    );
    assert_eq!(r.get_bytes_union(None, 10, 3), Err(Error::InvalidPointer(13, 12)));
}

#[test]
fn pointer_past_buffer_is_invalid() {
    let mut data = vec![0u8; 12];
    data[0] = 40;
    let r = Reader::new(&data, 6);
    assert_eq!(r.get_ptr(0), Err(Error::InvalidPointer(50, 12)));
    assert!(matches!(r.get_table::<SimpleIn>(0), Err(Error::InvalidPointer(50, 12))));
}

#[test]
fn unions_round_trip() {
    let mut arena = fresh();
    let mut w = Writer::new(&mut arena);
    let mut root = w.add_root::<Simple>(&mut arena);
    let mut child = {
        let mut u = root.u();
        u.child(&mut arena.arena)
    };
    child.u16_(&mut arena.arena, 99);
    let mut cu = child.u();
    cu.text(&mut arena.arena, "inner");
    let data = arena.finalize();
    let r = read_message::<Simple>(&data).unwrap();
    match r.u() {
        Ok(MyUnionIn::Child(c)) => {
            assert_eq!(c.u16_(), 99);
            match c.u() {
                Ok(MyUnionIn::Text(t)) => assert_eq!(t, "inner"),
                _ => panic!("expected text"),
            }
            match c.child() {
                Ok(None) => {}
                _ => panic!("expected no child"),
            }
        }
        _ => panic!("expected a child"),
    }
}

#[test]
fn unset_union_is_none_and_unknown_type_fails() {
    let mut arena = fresh();
    let mut w = Writer::new(&mut arena);
    let _root = w.add_root::<Simple>(&mut arena);
    let data = arena.finalize();
    let r = read_message::<Simple>(&data).unwrap();
    assert!(matches!(r.u(), Ok(MyUnionIn::NONE)));

    let mut slot = vec![7u8, 0, 0, 0, 0, 0, 0, 0];
    slot.extend_from_slice(&data);
    let r = Reader::new(&slot, 8);
    assert!(matches!(r.get_union::<MyUnionIn>(0), Err(Error::BadUnion(7))));
}

#[test]
fn inplace_text_follows_its_container() {
    let mut arena = fresh();
    let a = &mut arena.arena;
    let mut container = a.allocate(8, 0);
    container.add_text_inplace(a, 2, "abc", None);
    let data = a.as_slice().to_vec();
    assert_eq!(data.len(), 8 + 3 + 1);
    let r = Reader::new(&data, 8);
    assert_eq!(r.get_ptr_inplace(2), Ok(Some((8, 3))));
    assert_eq!(r.get_text_inplace(2), Ok(Some("abc")));
}

#[test]
fn inplace_list_follows_its_container() {
    let mut arena = fresh();
    let a = &mut arena.arena;
    let mut container = a.allocate(6, 0);
    let mut l = container.add_list_inplace::<scalgoproto::list_out::PodListWrite<u16>>(a, 0, 3, None);
    l.set(a, 0, 10);
    l.set(a, 2, 30);
    let data = a.as_slice().to_vec();
    let r = Reader::new(&data, 6);
    let li = r.get_list_inplace::<PodListRead<u16>>(0).unwrap().unwrap();
    assert_eq!(li.len(), 3);
    assert_eq!(li.get(0), 10);
    assert_eq!(li.get(1), 0);
    assert_eq!(li.get(2), 30);
}

#[test]
fn bool_and_enum_lists_round_trip() {
    let mut arena = fresh();
    let mut w = Writer::new(&mut arena);
    let mut bools = w.add_bool_list(&mut arena, 11);
    for i in 0..11usize {
        bools.set(&mut arena.arena, i, i % 3 == 0);
    }
    bools.set(&mut arena.arena, 3, false);
    let mut enums = w.add_enum_list::<MyEnum>(&mut arena, 5);
    enums.set(&mut arena.arena, 1, Some(MyEnum::B));
    enums.set(&mut arena.arena, 4, Some(MyEnum::D));
    let a = &mut arena.arena;
    let fb = pointer_to(a, bools.slice().get_offset() - 10);
    let fe = pointer_to(a, enums.slice().get_offset() - 10);
    let data = a.as_slice().to_vec();
    let r = Reader::new(&data, data.len());
    let b = r.get_list::<BoolListRead>(fb).unwrap().unwrap();
    assert_eq!(b.len(), 11);
    for i in 0..11usize {
        assert_eq!(b.get(i), i % 3 == 0 && i != 3);
    }
    let e = r.get_list::<EnumListRead<MyEnum>>(fe).unwrap().unwrap();
    assert_eq!(e.len(), 5);
    assert_eq!(e.get(0), None);
    assert_eq!(e.get(1), Some(MyEnum::B));
    assert_eq!(e.get(4), Some(MyEnum::D));
}

#[test]
fn list_iterator_yields_items_in_order() {
    let mut arena = fresh();
    let mut w = Writer::new(&mut arena);
    let mut root = w.add_root::<Simple>(&mut arena);
    let mut n = root.numbers(&mut arena.arena, 4);
    for i in 0..4usize {
        n.set(&mut arena.arena, i, (i as i32) * 7 - 3);
    }
    let data = arena.finalize();
    let r = read_message::<Simple>(&data).unwrap();
    let l = r.numbers().unwrap().unwrap();
    let mut it = l.iter();
    assert_eq!(it.size_hint(), (4, Some(4)));
    let mut got = Vec::new();
    while let Some(v) = it.next() {
        got.push(v);
    }
    assert_eq!(got, vec![-3, 4, 11, 18]);
    assert_eq!(it.size_hint(), (0, Some(0)));
    assert!(!l.is_empty());
}

#[test]
fn lists_copy_between_messages() {
    let mut src = fresh();
    let mut w = Writer::new(&mut src);
    let mut root = w.add_root::<Simple>(&mut src);
    let mut n = root.numbers(&mut src.arena, 5);
    for i in 0..5usize {
        n.set(&mut src.arena, i, 1000 + i as i32);
    }
    let data = src.finalize();
    let r = read_message::<Simple>(&data).unwrap();
    let l = r.numbers().unwrap().unwrap();

    let mut dst = Arena::new(Vec::new(), 10);
    let mut w2 = Writer::new(&mut dst);
    let mut root2 = w2.add_root::<Simple>(&mut dst);
    let mut n2 = root2.numbers(&mut dst.arena, 5);
    assert_eq!(n2.copy_in(&mut dst.arena, l), Ok(()));
    let data2 = dst.finalize();
    let r2 = read_message::<Simple>(&data2).unwrap();
    let l2 = r2.numbers().unwrap().unwrap();
    for i in 0..5usize {
        assert_eq!(l2.get(i), 1000 + i as i32);
    }
}

#[test]
fn direct_table_list_round_trips() {
    let mut arena = fresh();
    let mut w = Writer::new(&mut arena);
    let mut l = w.add_direct_table_list::<Simple>(&mut arena, 3);
    for i in 0..3usize {
        let mut t = l.get(i);
        t.u32_(&mut arena.arena, 500 + i as u32);
    }
    let a = &mut arena.arena;
    let f = pointer_to(a, l.slice().get_offset() - 18);
    let data = a.as_slice().to_vec();
    let r = Reader::new(&data, data.len());
    let d = r.get_direct_table_list::<SimpleIn>(f).unwrap().unwrap();
    assert_eq!(d.len(), 3);
    for i in 0..3usize {
        let t = d.get(i).unwrap();
        assert_eq!(t.u32_(), 500 + i as u32);
        assert_eq!(t.u8_(), 0);
    }
}

#[test]
fn text_lists_copy_between_messages() {
    let mut src = fresh();
    let mut w = Writer::new(&mut src);
    let mut root = w.add_root::<Simple>(&mut src);
    let mut words = root.words(&mut src.arena, 6);
    words.add(&mut src.arena, 1, "one");
    words.add(&mut src.arena, 4, "four");
    words.add(&mut src.arena, 5, "");
    let data = src.finalize();
    let r = read_message::<Simple>(&data).unwrap();
    let l = r.words().unwrap().unwrap();

    let mut dst = Arena::new(Vec::new(), 11);
    let mut w2 = Writer::new(&mut dst);
    let mut root2 = w2.add_root::<Simple>(&mut dst);
    let mut words2 = root2.words(&mut dst.arena, 6);
    assert_eq!(words2.copy_in(&mut dst.arena, l), Ok(()));
    let data2 = dst.finalize();
    let r2 = read_message::<Simple>(&data2).unwrap();
    let l2 = r2.words().unwrap().unwrap();
    let expect = [None, Some("one"), None, None, Some("four"), Some("")];
    for (i, e) in expect.iter().enumerate() {
        assert_eq!(l2.get(i), Ok(*e));
    }
}

#[test]
fn bytes_and_enum_lists_copy_between_messages() {
    let mut src = fresh();
    let mut w = Writer::new(&mut src);
    let mut blobs = w.add_bytes_list(&mut src, 3);
    blobs.add(&mut src.arena, 0, &[9, 8, 7]);
    blobs.add(&mut src.arena, 2, &[1]);
    let mut enums = w.add_enum_list::<MyEnum>(&mut src, 3);
    enums.set(&mut src.arena, 0, Some(MyEnum::C));
    enums.set(&mut src.arena, 2, Some(MyEnum::A));
    let a = &mut src.arena;
    let fb = pointer_to(a, blobs.slice().get_offset() - 10);
    let fe = pointer_to(a, enums.slice().get_offset() - 10);
    let data = a.as_slice().to_vec();
    let r = Reader::new(&data, data.len());
    let bl = r.get_list::<scalgoproto::list_in::BytesListRead>(fb).unwrap().unwrap();
    let el = r.get_list::<EnumListRead<MyEnum>>(fe).unwrap().unwrap();

    let mut dst = Arena::new(Vec::new(), 12);
    let mut w2 = Writer::new(&mut dst);
    let mut blobs2 = w2.add_bytes_list(&mut dst, 3);
    let mut enums2 = w2.add_enum_list::<MyEnum>(&mut dst, 3);
    assert_eq!(blobs2.copy_in(&mut dst.arena, bl), Ok(()));
    assert_eq!(enums2.copy_in(&mut dst.arena, el), Ok(()));
    let a2 = &mut dst.arena;
    let fb2 = pointer_to(a2, blobs2.slice().get_offset() - 10);
    let fe2 = pointer_to(a2, enums2.slice().get_offset() - 10);
    let data2 = a2.as_slice().to_vec();
    let r2 = Reader::new(&data2, data2.len());
    let bl2 = r2.get_list::<scalgoproto::list_in::BytesListRead>(fb2).unwrap().unwrap();
    assert_eq!(bl2.get(0), Ok(Some(&[9u8, 8, 7][..])));
    assert_eq!(bl2.get(1), Ok(None));
    assert_eq!(bl2.get(2), Ok(Some(&[1u8][..])));
    let el2 = r2.get_list::<EnumListRead<MyEnum>>(fe2).unwrap().unwrap();
    assert_eq!(el2.get(0), Some(MyEnum::C));
    assert_eq!(el2.get(1), None);
    assert_eq!(el2.get(2), Some(MyEnum::A));
}

#[test]
fn bool_lists_copy_between_messages() {
    let mut src = fresh();
    let mut w = Writer::new(&mut src);
    let mut bools = w.add_bool_list(&mut src, 13);
    for i in 0..13usize {
        bools.set(&mut src.arena, i, i % 4 == 1 || i == 12);
    }
    let a = &mut src.arena;
    let f = pointer_to(a, bools.slice().get_offset() - 10);
    let data = a.as_slice().to_vec();
    let r = Reader::new(&data, data.len());
    let l = r.get_list::<BoolListRead>(f).unwrap().unwrap();

    let mut dst = Arena::new(Vec::new(), 13);
    let mut w2 = Writer::new(&mut dst);
    let mut bools2 = w2.add_bool_list(&mut dst, 13);
    bools2.set(&mut dst.arena, 0, true);
    assert_eq!(bools2.copy_in(&mut dst.arena, l), Ok(()));
    let a2 = &mut dst.arena;
    let f2 = pointer_to(a2, bools2.slice().get_offset() - 10);
    let data2 = a2.as_slice().to_vec();
    let r2 = Reader::new(&data2, data2.len());
    let l2 = r2.get_list::<BoolListRead>(f2).unwrap().unwrap();
    for i in 0..13usize {
        assert_eq!(l2.get(i), i % 4 == 1 || i == 12);
    }
}

#[test]
fn errors_describe_themselves() {
    assert_eq!(Error::Utf8().to_string(), "Scalgo proto error: utf8");
    assert_eq!(
        Error::InvalidPointer(13, 12).to_string(),
        "Scalgo proto error: Invalid pointer at 13 size is 12"
    );
    assert_eq!(
        Error::InvalidPointer(0, 1000000).to_string(),
        "Scalgo proto error: Invalid pointer at 0 size is 1000000"
    );
    assert_eq!(Error::Overflow().to_string(), "Scalgo proto error: Overflow");
    assert_eq!(
        Error::BadMagic(TEXTMAGIC, 0xF0606B0B).to_string(),
        "Scalgo proto error: Bad magic got 3625109749 expected 4032850699"
    );
    assert_eq!(Error::BadUnion(7).to_string(), "Scalgo proto error: Bad union type 7");
}

#[test]
fn inplace_table_follows_its_container() {
    let mut arena = fresh();
    let a = &mut arena.arena;
    let mut container = a.allocate(6, 0);
    let mut child: scalgoproto::simple::SimpleOut =
        container.add_table_inplace(a, 0, Some(container.get_offset() + 6));
    child.u16_(a, 321);
    let data = a.as_slice().to_vec();
    assert_eq!(data.len(), 6 + 127);
    let r = Reader::new(&data, 6);
    let t = r.get_table_inplace::<SimpleIn>(0).unwrap().unwrap();
    assert_eq!(t.u16_(), 321);
    assert_eq!(t.u8_(), 2);
}

#[test]
fn list_lengths_are_the_allocated_counts() {
    let mut arena = fresh();
    let mut w = Writer::new(&mut arena);
    let empty = w.add_u8_list(&mut arena, 0);
    assert_eq!(empty.len(), 0);
    assert!(empty.is_empty());
    let l = w.add_i64_list(&mut arena, 17);
    assert_eq!(l.len(), 17);
    assert!(!l.is_empty());
    let a = &mut arena.arena;
    let fe = pointer_to(a, empty.slice().get_offset() - 10);
    let fl = pointer_to(a, l.slice().get_offset() - 10);
    let data = a.as_slice().to_vec();
    let r = Reader::new(&data, data.len());
    let e = r.get_list::<PodListRead<u8>>(fe).unwrap().unwrap();
    assert_eq!(e.len(), 0);
    assert!(e.is_empty());
    let li = r.get_list::<PodListRead<i64>>(fl).unwrap().unwrap();
    assert_eq!(li.len(), 17);
    assert_eq!(li.get(16), 0);
}
