use torrent::bitfield::{Bitfield, BitfieldMut};

#[test]
fn set_piece_on_bitfield() {
    let mut bitfield: Vec<u8> = vec![0u8; 8];

    bitfield.set_piece(3);

    assert!(bitfield.has_piece(3));
}

#[test]
fn unset_piece_on_bitfield() {
    let mut bitfield: Vec<u8> = vec![0u8; 8];

    bitfield.set_piece(3);

    assert!(bitfield.has_piece(3));

    bitfield.unset_piece(3);
    assert!(bitfield.has_piece(3) == false);
}

#[test]
fn set_unset_on_slice() {
    let mut bitfield: Vec<u8> = vec![0, 0, 0];

    bitfield.set_piece(3);

    assert!(bitfield.has_piece(3));

    bitfield.unset_piece(3);
    assert!(bitfield.has_piece(3) == false);
}

#[test]
fn msb_first_layout() {
    let mut bitfield: Vec<u8> = vec![0u8; 2];
    bitfield.set_piece(0);
    assert_eq!(bitfield[0], 0x80);

    let mut bitfield: Vec<u8> = vec![0u8; 2];
    bitfield.set_piece(7);
    assert_eq!(bitfield[0], 0x01);

    let mut bitfield: Vec<u8> = vec![0u8; 2];
    bitfield.set_piece(8);
    assert_eq!(bitfield[0], 0x00);
    assert_eq!(bitfield[1], 0x80);
}

#[test]
fn has_piece_on_prefilled_buffer() {
    let bitfield: Vec<u8> = vec![0x10, 0x00];
    assert!(bitfield.has_piece(3));
    assert!(!bitfield.has_piece(2));
    assert!(!bitfield.has_piece(4));
}

#[test]
fn has_piece_out_of_range_is_false() {
    let bitfield: Vec<u8> = vec![0xff];
    assert!(bitfield.has_piece(7));
    assert!(!bitfield.has_piece(8));
    assert!(!bitfield.has_piece(1000));
}

#[test]
fn set_piece_is_idempotent() {
    let mut once: Vec<u8> = vec![0u8; 4];
    once.set_piece(11);
    let mut twice: Vec<u8> = vec![0u8; 4];
    twice.set_piece(11);
    twice.set_piece(11);
    assert_eq!(once, twice);
    assert!(twice.has_piece(11));
}
