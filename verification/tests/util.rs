use os::bytes::Region;
use os::keyboard::{decode, KeyEvent, PORT, TABLE};
use os::util::{Mutex, Once, OwnedArrayIterator, Volatile};

#[test]
fn array_hands_out_its_items_in_order() {
    let mut items = OwnedArrayIterator::new([(1u64, 2u64), (3, 4)]);
    let copy = items;
    assert_eq!(items.next(), Some((1, 2)));
    assert_eq!(items.next(), Some((3, 4)));
    assert_eq!(items.next(), None);
    assert_eq!(items.next(), None);
    let mut again = copy;
    assert_eq!(again.next(), Some((1, 2)));
    let mut none: OwnedArrayIterator<u8, 0> = OwnedArrayIterator::new([]);
    assert_eq!(none.next(), None);
}

#[test]
fn volatile_cell_holds_what_was_written() {
    let mut cell = Volatile::new(7u16);
    assert_eq!(cell.read(), 7);
    cell.write(0x0F41);
    assert_eq!(cell.read(), 0x0F41);
    assert_eq!(cell.read(), 0x0F41);
}

#[test]
fn mutex_gives_its_value_out() {
    let mut mutex = Mutex::new(vec![1, 2]);
    mutex.lock().push(3);
    *mutex.lock() = vec![9];
    mutex.lock().push(8);
    assert_eq!(*mutex.lock(), vec![9, 8]);
}

#[test]
fn once_makes_its_value_once() {
    let mut once: Once<u32> = Once::new();
    assert_eq!(*once.call_once(|| 5), 5);
    assert_eq!(*once.call_once(|| 6), 5);
    *once.call_once(|| 7) += 1;
    assert_eq!(*once.call_once(|| 8), 6);
}

#[test]
fn scan_codes_of_the_keyboard() {
    assert_eq!(PORT, 0x60);
    assert_eq!(TABLE.len(), 128);
    assert_eq!(TABLE[1], 27);
    assert_eq!(TABLE[2], b'1');
    assert_eq!(TABLE[11], b'0');
    assert_eq!(TABLE[15], b'\t');
    assert_eq!(TABLE[16], b'q');
    assert_eq!(TABLE[28], b'\n');
    assert_eq!(TABLE[30], b'a');
    assert_eq!(TABLE[39], b';');
    assert_eq!(TABLE[43], b'\\');
    assert_eq!(TABLE[44], b'z');
    assert_eq!(TABLE[53], b'/');
    assert_eq!(TABLE[55], b'*');
    assert_eq!(TABLE[57], b' ');
    assert_eq!(TABLE[74], b'-');
    assert_eq!(TABLE[78], b'+');
    assert_eq!(TABLE[127], 0);
    assert_eq!(TABLE.iter().filter(|byte| **byte != 0).count(), 54);
    assert_eq!(decode(0x10), KeyEvent { key: 0x10, release: false, byte: b'q' });
    assert_eq!(decode(0x90), KeyEvent { key: 0x10, release: true, byte: b'q' });
    assert_eq!(decode(0x1D), KeyEvent { key: 0x1D, release: false, byte: 0 });
    assert_eq!(decode(0xFF), KeyEvent { key: 0x7F, release: true, byte: 0 });
}

#[test]
fn numbers_are_read_low_byte_first() {
    let bytes: Vec<u8> = (1..=16).collect();
    let region = Region::new(0x1000, bytes);
    assert_eq!(region.base(), 0x1000);
    assert_eq!(region.len(), 16);
    assert_eq!(region.read_u8(0x1000), 1);
    assert_eq!(region.read_u8(0x100F), 16);
    assert_eq!(region.read_u16(0x1001), 0x0302);
    assert_eq!(region.read_u32(0x1004), 0x0807_0605);
    assert_eq!(region.read_u64(0x1008), 0x100F_0E0D_0C0B_0A09);
    assert!(region.holds(0x1000, 16));
    assert!(region.holds(0x1010, 0));
    assert!(!region.holds(0x1000, 17));
    assert!(!region.holds(0x0FFF, 1));
    assert!(!region.holds(0x100D, 4));
    assert!(!region.holds(u64::MAX, 1));
    assert!(!region.holds(0x1001, u64::MAX));
    let top = Region::new(0xFFFF_FFFE, vec![0xAB, 0xCD]);
    assert_eq!(top.read_u16(0xFFFF_FFFE), 0xCDAB);
}
