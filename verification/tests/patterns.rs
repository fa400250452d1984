use octatools::patterns::{get_halfpage_trigs_from_bitmask_value, get_track_trigs_from_bitmasks, pattern_index_is_valid};

#[test]
fn test_all_track_trigs_from_bitmasks() {
    let x: [u8; 8] = std::array::from_fn(|_| 255);
    let y: [bool; 64] = std::array::from_fn(|_| true);

    assert_eq!(
        get_track_trigs_from_bitmasks(&x).unwrap(),
        y
    )
}

#[test]
fn test_no_track_trigs_from_bitmasks() {
    let x: [u8; 8] = std::array::from_fn(|_| 0);
    let y: [bool; 64] = std::array::from_fn(|_| false);

    assert_eq!(
        get_track_trigs_from_bitmasks(&x).unwrap(),
        y
    )
}

#[test]
fn test_halfpage_trig_bitmask_unmask_0() {
    assert_eq!(
        get_halfpage_trigs_from_bitmask_value(&0).unwrap(),
        [false, false, false, false, false, false, false, false],
    );
}

#[test]
fn test_halfpage_trig_bitmask_unmask_1() {
    assert_eq!(
        get_halfpage_trigs_from_bitmask_value(&1).unwrap(),
        [true, false, false, false, false, false, false, false],
    );
}

#[test]
fn test_halfpage_trig_bitmask_unmask_2() {
    assert_eq!(
        get_halfpage_trigs_from_bitmask_value(&2).unwrap(),
        [false, true, false, false, false, false, false, false],
    );
}

#[test]
fn test_halfpage_trig_bitmask_unmask_4() {
    assert_eq!(
        get_halfpage_trigs_from_bitmask_value(&4).unwrap(),
        [false, false, true, false, false, false, false, false],
    );
}

#[test]
fn test_halfpage_trig_bitmask_unmask_8() {
    assert_eq!(
        get_halfpage_trigs_from_bitmask_value(&8).unwrap(),
        [false, false, false, true, false, false, false, false],
    );
}

#[test]
fn test_halfpage_trig_bitmask_unmask_16() {
    assert_eq!(
        get_halfpage_trigs_from_bitmask_value(&16).unwrap(),
        [false, false, false, false, true, false, false, false],
    );
}

#[test]
fn test_halfpage_trig_bitmask_unmask_32() {
    assert_eq!(
        get_halfpage_trigs_from_bitmask_value(&32).unwrap(),
        [false, false, false, false, false, true, false, false],
    );
}

#[test]
fn test_halfpage_trig_bitmask_unmask_64() {
    assert_eq!(
        get_halfpage_trigs_from_bitmask_value(&64).unwrap(),
        [false, false, false, false, false, false, true, false],
    );
}

#[test]
fn test_halfpage_trig_bitmask_unmask_128() {
    assert_eq!(
        get_halfpage_trigs_from_bitmask_value(&128).unwrap(),
        [false, false, false, false, false, false, false, true],
    );
}

#[test]
fn test_halfpage_trig_bitmask_unmask_3() {
    assert_eq!(
        get_halfpage_trigs_from_bitmask_value(&3).unwrap(),
        [true, true, false, false, false, false, false, false],
    );
}

#[test]
fn test_halfpage_trig_bitmask_unmask_7() {
    assert_eq!(
        get_halfpage_trigs_from_bitmask_value(&7).unwrap(),
        [true, true, true, false, false, false, false, false],
    );
}

#[test]
fn test_halfpage_trig_bitmask_unmask_15() {
    assert_eq!(
        get_halfpage_trigs_from_bitmask_value(&15).unwrap(),
        [true, true, true, true, false, false, false, false],
    );
}

#[test]
fn test_halfpage_trig_bitmask_unmask_31() {
    assert_eq!(
        get_halfpage_trigs_from_bitmask_value(&31).unwrap(),
        [true, true, true, true, true, false, false, false],
    );
}

#[test]
fn test_halfpage_trig_bitmask_unmask_63() {
    assert_eq!(
        get_halfpage_trigs_from_bitmask_value(&63).unwrap(),
        [true, true, true, true, true, true, false, false],
    );
}

#[test]
fn test_halfpage_trig_bitmask_unmask_127() {
    assert_eq!(
        get_halfpage_trigs_from_bitmask_value(&127).unwrap(),
        [true, true, true, true, true, true, true, false],
    );
}

#[test]
fn test_halfpage_trig_bitmask_unmask_255() {
    assert_eq!(
        get_halfpage_trigs_from_bitmask_value(&255).unwrap(),
        [true, true, true, true, true, true, true, true],
    );
}


#[test]
fn pattern_indexes_are_checked() {
    assert!(pattern_index_is_valid(&[1, 16, 7]));
    assert!(!pattern_index_is_valid(&[0, 3]));
    assert!(!pattern_index_is_valid(&[3, 17]));
    assert!(pattern_index_is_valid(&[16]));
}
