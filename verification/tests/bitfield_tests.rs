use p2p_transfer::bitfield::Bitfield;

#[test]
fn bitfield() {
    let mut bitfield = Bitfield::new();
    bitfield.set(1, true);
    bitfield.set(0, true);
    bitfield.set(3, true);
    assert_eq!(bitfield.get_bytes()[0], 0b00001011);
    bitfield.set(2, false);
    assert_eq!(bitfield.get_bytes()[0], 0b00001011);
    bitfield.set(3, false);
    assert_eq!(bitfield.get_bytes()[0], 0b00000011);

    for (idx, &value) in [true, true, false, false, false, false, false, false]
        .iter()
        .enumerate()
    {
        assert_eq!(bitfield.get(idx), value);
    }

    let iter = bitfield.iter().into_iter();
    assert!(iter.take(2).all(|a| a == true));
    let iter = bitfield.iter().into_iter();
    assert!(iter.skip(2).take(6).all(|a| a == false));
    let iter = bitfield.iter().into_iter();
    assert!(iter.skip(2).take(100).all(|a| a == false));

    bitfield.set(145, true);
    assert_eq!(bitfield.get(145), true);
    assert_eq!(bitfield.get_bytes()[145 / 8], 0b00000010);
}

#[test]
fn bitfield_bits() {
    let mut bitfield = Bitfield::new();
    assert_eq!(bitfield.get_bytes(), &Vec::<u8>::new());
    bitfield.set(1, true);
    bitfield.set(0, true);
    bitfield.set(3, true);
    assert_eq!(bitfield.get_bytes()[0], 0b00001011);
    bitfield.set(3, false);
    assert_eq!(bitfield.get_bytes()[0], 0b00000011);
    bitfield.set(145, true);
    assert_eq!(bitfield.get_bytes()[145 / 8], 0b00000010);
    assert_eq!(bitfield.get(145), true);
    assert_eq!(bitfield.get(144), false);
    assert_eq!(bitfield.get_bytes().len(), 19);
}

#[test]
fn bitfield_identity() {
    let mut bitfield = Bitfield::new();
    let mut model = vec![false; 100_000];
    let mut state: u32 = 12345;
    for _ in 0..20_000 {
        state = state.wrapping_mul(1_103_515_245).wrapping_add(12_345);
        let index = (state >> 8) as usize % 100_000;
        let value = state & 1 == 1;
        bitfield.set(index, value);
        model[index] = value;
        assert_eq!(bitfield.get(index), value);
    }
    for (index, &value) in model.iter().enumerate() {
        assert_eq!(bitfield.get(index), value, "bit {}", index);
    }
}

#[test]
fn get_out_of_range_is_false_and_does_not_grow() {
    let mut bitfield = Bitfield::new();
    assert!(!bitfield.get(0));
    assert!(!bitfield.get(usize::MAX));
    assert!(bitfield.get_bytes().is_empty());
    bitfield.set(9, true);
    assert!(!bitfield.get(16));
    assert_eq!(bitfield.get_bytes().len(), 2);
}

#[test]
fn set_zero_fills_the_gap_and_never_shrinks() {
    let mut bitfield = Bitfield::new();
    bitfield.set(40, true);
    assert_eq!(bitfield.get_bytes(), &vec![0, 0, 0, 0, 0, 1]);
    bitfield.set(40, false);
    bitfield.set(0, false);
    assert_eq!(bitfield.get_bytes(), &vec![0, 0, 0, 0, 0, 0]);
}

#[test]
fn from_bytes_and_get_bytes_are_inverse() {
    let bytes = vec![0xa5, 0x00, 0xff, 0x01];
    let bitfield = Bitfield::from_bytes(bytes.clone());
    assert_eq!(bitfield.get_bytes(), &bytes);
    assert_eq!(Bitfield::from_bytes(bitfield.get_bytes().clone()), bitfield);
    assert!(bitfield.get(0));
    assert!(!bitfield.get(1));
    assert!(bitfield.get(2));
    assert!(bitfield.get(7));
    assert!(bitfield.get(24));
    assert!(!bitfield.get(25));
}

#[test]
fn iter_yields_every_stored_bit() {
    let bitfield = Bitfield::from_bytes(vec![0b0000_0101, 0b1000_0000]);
    let bits = bitfield.iter();
    assert_eq!(bits.len(), 16);
    let expected = [
        true, false, true, false, false, false, false, false, false, false, false, false, false,
        false, false, true,
    ];
    assert_eq!(bits, expected.to_vec());
    assert_eq!(Bitfield::new().iter(), Vec::<bool>::new());
}

#[test]
fn equality_is_of_the_stored_bytes() {
    let mut short = Bitfield::new();
    short.set(0, true);
    let mut long = Bitfield::new();
    long.set(0, true);
    long.set(8, false);
    assert_eq!(short.get(0), long.get(0));
    assert_eq!(short.get(8), long.get(8));
    assert_ne!(short, long);
    assert_eq!(short.clone(), short);
}
