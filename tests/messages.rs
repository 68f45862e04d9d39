use scalgoproto::arena::{Arena, Writer};
use scalgoproto::copy::CopyIn;
use scalgoproto::error::Error;
use scalgoproto::message::read_message;
use scalgoproto::simple::{MyEnum, Simple};

fn write_full() -> Vec<u8> {
    let mut arena = Arena::new(Vec::new(), 1);
    let mut w = Writer::new(&mut arena);
    let mut root = w.add_root::<Simple>(&mut arena);
    let a = &mut arena.arena;
    root.e(a, Some(MyEnum::C));
    {
        let mut s = root.s();
        s.e(a, Some(MyEnum::D));
        {
            let mut ms = s.s();
            ms.x(a, 42);
            ms.y(a, 27);
            ms.z(a, true);
        }
        s.b(a, false);
        s.u8_(a, 8);
        s.u16_(a, 9);
        s.u32_(a, 10);
        s.u64_(a, 11);
        s.i8_(a, -8);
        s.i16_(a, -9);
        s.i32_(a, -10);
        s.i64_(a, -11);
    }
    root.b(a, true);
    root.u8_(a, 242);
    root.u16_(a, 4024);
    root.u32_(a, 124474);
    root.u64_(a, 5465778);
    root.i8_(a, -40);
    root.i16_(a, 4025);
    root.i32_(a, 124475);
    root.i64_(a, 5465779);
    {
        let mut os = root.os(a);
        os.x(a, 43);
        os.y(a, 28);
        os.z(a, false);
    }
    root.ob(a, false);
    root.ou8(a, 252);
    root.ou16(a, 4034);
    root.ou32(a, 124464);
    arena.finalize()
}

#[test]
fn full_table_round_trips() {
    let data = write_full();
    let r = read_message::<Simple>(&data).unwrap();
    assert_eq!(r.e(), Some(MyEnum::C));
    let s = r.s();
    assert_eq!(s.e(), Some(MyEnum::D));
    assert_eq!(s.s().x(), 42);
    assert_eq!(s.s().y(), 27);
    assert!(s.s().z());
    assert!(!s.b());
    assert_eq!(s.u8_(), 8);
    assert_eq!(s.u16_(), 9);
    assert_eq!(s.u32_(), 10);
    assert_eq!(s.u64_(), 11);
    assert_eq!(s.i8_(), -8);
    assert_eq!(s.i16_(), -9);
    assert_eq!(s.i32_(), -10);
    assert_eq!(s.i64_(), -11);
    assert!(r.b());
    assert_eq!(r.u8_(), 242);
    assert_eq!(r.u16_(), 4024);
    assert_eq!(r.u32_(), 124474);
    assert_eq!(r.u64_(), 5465778);
    assert_eq!(r.i8_(), -40);
    assert_eq!(r.i16_(), 4025);
    assert_eq!(r.i32_(), 124475);
    assert_eq!(r.i64_(), 5465779);
    let os = r.os().unwrap();
    assert_eq!(os.x(), 43);
    assert_eq!(os.y(), 28);
    assert!(!os.z());
    assert_eq!(r.ob(), Some(false));
    assert_eq!(r.ou8(), Some(252));
    assert_eq!(r.ou16(), Some(4034));
    assert_eq!(r.ou32(), Some(124464));
}

#[test]
fn unset_root_reads_defaults() {
    let mut arena = Arena::new(Vec::new(), 2);
    let mut w = Writer::new(&mut arena);
    let _root = w.add_root::<Simple>(&mut arena);
    let data = arena.finalize();
    let r = read_message::<Simple>(&data).unwrap();
    assert_eq!(r.e(), None);
    assert!(!r.b());
    assert_eq!(r.u8_(), 2);
    assert_eq!(r.u16_(), 3);
    assert_eq!(r.u32_(), 4);
    assert_eq!(r.u64_(), 5);
    assert_eq!(r.i8_(), 6);
    assert_eq!(r.i16_(), 7);
    assert_eq!(r.i32_(), 8);
    assert_eq!(r.i64_(), 9);
    assert!(r.os().is_none());
    assert_eq!(r.ob(), None);
    assert_eq!(r.ou8(), None);
    assert_eq!(r.ou16(), None);
    assert_eq!(r.ou32(), None);
    assert_eq!(r.name(), Ok(None));
    assert_eq!(r.data(), Ok(None));
    assert!(r.numbers().unwrap().is_none());
    assert!(r.words().unwrap().is_none());
    assert!(r.child().unwrap().is_none());
}

#[test]
fn lists_round_trip() {
    let mut arena = Arena::new(Vec::new(), 3);
    let mut w = Writer::new(&mut arena);
    let mut root = w.add_root::<Simple>(&mut arena);
    let mut numbers = root.numbers(&mut arena.arena, 31);
    assert_eq!(numbers.len(), 31);
    for i in 0..31usize {
        numbers.set(&mut arena.arena, i, 100 - 2 * i as i32);
    }
    let mut words = root.words(&mut arena.arena, 200);
    for i in (1..200usize).step_by(2) {
        words.add(&mut arena.arena, i, &format!("HI{}", i));
    }
    let data = arena.finalize();
    let r = read_message::<Simple>(&data).unwrap();
    let l = r.numbers().unwrap().unwrap();
    assert_eq!(l.len(), 31);
    for i in 0..31usize {
        assert_eq!(l.get(i), 100 - 2 * i as i32);
    }
    let t = r.words().unwrap().unwrap();
    assert_eq!(t.len(), 200);
    for i in 0..200usize {
        let v = t.get(i).unwrap();
        if i % 2 == 0 {
            assert_eq!(v, None);
        } else {
            assert_eq!(v, Some(format!("HI{}", i).as_str()));
        }
    }
}

#[test]
fn text_bytes_and_child_round_trip() {
    let mut arena = Arena::new(Vec::new(), 4);
    let mut w = Writer::new(&mut arena);
    let mut root = w.add_root::<Simple>(&mut arena);
    root.name(&mut arena.arena, "hello");
    root.data(&mut arena.arena, &[1, 2, 3, 255]);
    let mut child = root.child(&mut arena.arena);
    child.u32_(&mut arena.arena, 77);
    let data = arena.finalize();
    let r = read_message::<Simple>(&data).unwrap();
    assert_eq!(r.name(), Ok(Some("hello")));
    assert_eq!(r.data(), Ok(Some(&[1u8, 2, 3, 255][..])));
    let c = r.child().unwrap().unwrap();
    assert_eq!(c.u32_(), 77);
    assert_eq!(c.u8_(), 2);
}

#[test]
fn short_buffer_is_rejected() {
    let r = read_message::<Simple>(&[0u8; 5]);
    assert!(matches!(r, Err(Error::InvalidPointer(10, 5))));
}

#[test]
fn truncated_buffer_is_rejected() {
    let data = write_full();
    let cut = &data[..data.len() - 1];
    let r = read_message::<Simple>(cut);
    assert!(matches!(r, Err(Error::InvalidPointer(_, _))));
}


#[test]
fn structs_copy_between_messages() {
    let data = write_full();
    let r = read_message::<Simple>(&data).unwrap();
    let os = r.os().unwrap();

    let mut arena = Arena::new(Vec::new(), 5);
    let mut w = Writer::new(&mut arena);
    let mut root = w.add_root::<Simple>(&mut arena);
    let mut target = root.os(&mut arena.arena);
    assert_eq!(target.copy_in(&mut arena.arena, os), Ok(()));
    let data2 = arena.finalize();
    let r2 = read_message::<Simple>(&data2).unwrap();
    let os2 = r2.os().unwrap();
    assert_eq!(os2.x(), 43);
    assert_eq!(os2.y(), 28);
    assert!(!os2.z());
}

#[test]
fn wrong_message_tag_is_rejected() {
    let mut data = write_full();
    data[0] ^= 1;
    let r = read_message::<Simple>(&data);
    assert!(matches!(r, Err(Error::BadMagic(0xB5C0C4B2, 0xB5C0C4B3))));
}
