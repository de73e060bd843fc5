use rosu_map::reader::u16_iter::{DoubleByteIterator, U16BeIterator, U16LeIterator};

#[test]
fn invalid_len() {
    let mut iter = DoubleByteIterator::new(&[1, 2, 3]);
    assert_eq!(iter.next(), Some([1, 2]));
    assert_eq!(iter.next(), None);
}

#[test]
fn le_works() {
    let mut iter = U16LeIterator::new(&[b'1', 0, b'Z', 0]);
    assert_eq!(iter.next(), Some(b'1' as u16));
    assert_eq!(iter.next(), Some(b'Z' as u16));
    assert_eq!(iter.next(), None);
}

#[test]
fn be_works() {
    let mut iter = U16BeIterator::new(&[0, b'1', 0, b'Z']);
    assert_eq!(iter.next(), Some(b'1' as u16));
    assert_eq!(iter.next(), Some(b'Z' as u16));
    assert_eq!(iter.next(), None);
}

#[test]
fn size_hints_count_whole_units() {
    let iter = U16LeIterator::new(&[1, 2, 3, 4, 5]);
    assert_eq!(iter.size_hint(), (2, Some(2)));
    let iter = U16BeIterator::new(&[0xAB, 0xCD]);
    assert_eq!(iter.size_hint(), (1, Some(1)));
    let mut iter = U16BeIterator::new(&[0xAB, 0xCD]);
    assert_eq!(iter.next(), Some(0xABCD));
    let mut iter = U16LeIterator::new(&[0xAB, 0xCD]);
    assert_eq!(iter.next(), Some(0xCDAB));
}
