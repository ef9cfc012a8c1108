use scanline::{intersect, offset};

#[test]
fn intersect_commutes() {
    let cases = [
        (0..5, 3..8),
        (0..5, 5..10),
        (-10..-2, -4..7),
        (isize::MIN..0, -1..isize::MAX),
        (2..3, 0..10),
        (0..10, 2..3),
    ];
    for (a, b) in cases.iter() {
        assert_eq!(intersect(a, b), intersect(b, a));
    }
}

#[test]
fn intersect_with_itself() {
    assert_eq!(intersect(&(0..5), &(0..5)), Some(0..5));
    assert_eq!(intersect(&(-7..-3), &(-7..-3)), Some(-7..-3));
    assert_eq!(intersect(&(isize::MIN..isize::MAX), &(isize::MIN..isize::MAX)), Some(isize::MIN..isize::MAX));
    assert_eq!(intersect(&(3..3), &(3..3)), None);
}

#[test]
fn offset_round_trip() {
    let a = -4..9;
    for k in [-100isize, -1, 0, 1, 7, 1000] {
        assert_eq!(offset(&offset(&a, k), -k), a);
    }
    assert_eq!(offset(&(0..5), -100), -100..-95);
}

#[test]
fn touching_intervals_do_not_intersect() {
    assert_eq!(intersect(&(0..5), &(5..10)), None);
    assert_eq!(intersect(&(5..10), &(0..5)), None);
}

#[test]
fn overlapping_intervals_intersect() {
    assert_eq!(intersect(&(0..5), &(3..8)), Some(3..5));
    assert_eq!(intersect(&(3..8), &(0..5)), Some(3..5));
}

#[test]
fn contained_interval_intersects_to_itself() {
    assert_eq!(intersect(&(2..4), &(0..10)), Some(2..4));
    assert_eq!(intersect(&(-10..10), &(-3..-1)), Some(-3..-1));
}

#[test]
fn disjoint_intervals_do_not_intersect() {
    assert_eq!(intersect(&(0..2), &(4..6)), None);
    assert_eq!(intersect(&(isize::MIN..isize::MIN + 1), &(isize::MAX - 1..isize::MAX)), None);
}

#[test]
fn empty_interval_intersects_to_nothing() {
    assert_eq!(intersect(&(5..5), &(0..10)), None);
    assert_eq!(intersect(&(0..10), &(5..5)), None);
    assert_eq!(intersect(&(0..0), &(0..10)), None);
}
