use richter::bitset::BitSet;

#[test]
fn test_set_bit() {
    let mut bits: BitSet<2> = BitSet::new();

    let cases = &[0, 1, 63, 64];

    for case in cases.iter().copied() {
        bits.set(case);
        assert!(bits.contains(case));
    }
}

#[test]
fn test_clear_bit() {
    let mut bits: BitSet<2> = BitSet::all_set();

    let cases = &[0, 1, 63, 64];

    for case in cases.iter().copied() {
        bits.clear(case);
        assert!(!bits.contains(case));
    }
}

#[test]
fn bitset_test_iter() {
    let mut bits: BitSet<8> = BitSet::new();

    let cases = &[1, 2, 3, 5, 8, 13, 21, 34, 55, 89];

    for case in cases.iter().cloned() {
        bits.set(case);
    }

    let mut back = Vec::new();
    let mut it = bits.iter();
    while let Some(b) = it.next() {
        back.push(b);
    }

    assert_eq!(&cases[..], &back);
}

#[test]
fn bitset_count_and_toggle() {
    let mut bits: BitSet<2> = BitSet::new();
    assert_eq!(bits.count(), 0);
    bits.set(3);
    bits.set(100);
    assert_eq!(bits.count(), 2);
    bits.toggle(3);
    assert!(!bits.contains(3));
    bits.toggle(3);
    assert!(bits.contains(3));
    assert_eq!(BitSet::<2>::all_set().count(), 128);
}

#[test]
fn bitset_set_leaves_other_bits() {
    let mut bits: BitSet<2> = BitSet::new();
    bits.set(64);
    assert!(!bits.contains(0));
    assert!(!bits.contains(63));
    assert!(!bits.contains(65));
}

#[test]
fn count_matches_bits_set() {
    let mut bits: BitSet<2> = BitSet::new();
    assert_eq!(bits.count(), 0);
    bits.set(3);
    bits.set(70);
    bits.set(3);
    assert_eq!(bits.count(), 2);
    bits.toggle(70);
    assert_eq!(bits.count(), 1);
    bits.toggle(70);
    bits.toggle(70);
    assert!(!bits.contains(70));
    let all: BitSet<2> = BitSet::all_set();
    assert_eq!(all.count(), 128);
}

#[test]
fn full_and_empty_sets_count() {
    assert_eq!(BitSet::<2>::all_set().count(), 128);
    assert_eq!(BitSet::<2>::new().count(), 0);
}
