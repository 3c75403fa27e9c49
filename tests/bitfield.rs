use torrent_core::bitfield::Bitfield;

#[test]
fn bitfield_has_set() {
    let mut bf = Bitfield::new(vec![0b10101010, 0b01010101]);
    assert!(bf.has_piece(0));
    assert!(!bf.has_piece(1));
    assert!(!bf.has_piece(7));
    assert!(!bf.has_piece(8));
    assert!(bf.has_piece(15));

    bf.set_piece(1);
    assert!(bf.has_piece(0));
    assert!(bf.has_piece(1));
    assert!(!bf.has_piece(7));
    assert!(!bf.has_piece(8));
    assert!(bf.has_piece(15));
}

#[test]
fn bitfield_iter() {
    let bf = Bitfield::new(vec![0b10101010, 0b01010101]);
    let mut pieces = bf.pieces().into_iter();
    assert_eq!(pieces.next(), Some(0));
    assert_eq!(pieces.next(), Some(2));
    assert_eq!(pieces.next(), Some(4));
    assert_eq!(pieces.next(), Some(6));
    assert_eq!(pieces.next(), Some(9));
    assert_eq!(pieces.next(), Some(11));
    assert_eq!(pieces.next(), Some(13));
    assert_eq!(pieces.next(), Some(15));
    assert_eq!(pieces.next(), None);
}

#[test]
fn bitfield_set_then_iter() {
    let mut bf = Bitfield::new(vec![0b10101010, 0b01010101]);
    bf.set_piece(1);
    assert!(bf.has_piece(1));
    assert_eq!(bf.pieces(), vec![0, 1, 2, 4, 6, 9, 11, 13, 15]);
    assert_eq!(bf.as_bytes(), &vec![0b11101010, 0b01010101]);
}

#[test]
fn bitfield_set_keeps_other_bits() {
    let mut bf = Bitfield::new(vec![0, 0, 0]);
    bf.set_piece(10);
    for j in 0..24 {
        assert_eq!(bf.has_piece(j), j == 10);
    }
    assert_eq!(bf.as_bytes(), &vec![0, 0b00100000, 0]);
}

#[test]
fn bitfield_out_of_range() {
    let mut bf = Bitfield::new(vec![0xFF]);
    assert!(bf.has_piece(7));
    assert!(!bf.has_piece(8));
    assert!(!bf.has_piece(1000));
    bf.set_piece(8);
    bf.set_piece(usize::MAX);
    assert_eq!(bf.as_bytes(), &vec![0xFF]);
    assert!(!bf.has_piece(8));
}

#[test]
fn bitfield_empty_with_capacity() {
    let bf = Bitfield::empty_with_piece_capacity(9);
    assert_eq!(bf.as_bytes(), &vec![0, 0]);
    assert!(bf.pieces().is_empty());
    assert_eq!(Bitfield::empty_with_piece_capacity(8).as_bytes().len(), 1);
    assert_eq!(Bitfield::empty_with_piece_capacity(0).as_bytes().len(), 0);
    assert_eq!(Bitfield::empty_with_piece_capacity(17).as_bytes().len(), 3);
}
