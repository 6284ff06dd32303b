use universal_engine::align::{checked_round_up, round_up};

#[test]
fn round_up_gives_the_next_multiple() {
    assert_eq!(round_up(0, 16), 0);
    assert_eq!(round_up(1, 16), 16);
    assert_eq!(round_up(10, 16), 16);
    assert_eq!(round_up(16, 16), 16);
    assert_eq!(round_up(17, 16), 32);
    assert_eq!(round_up(40, 16), 48);
    assert_eq!(round_up(5, 64), 64);
    assert_eq!(round_up(112, 4096), 4096);
    assert_eq!(round_up(4097, 4096), 8192);
    assert_eq!(round_up(3, 4), 4);
    assert_eq!(round_up(7, 1), 7);
}

#[test]
fn round_up_reaches_the_top_of_the_address_space() {
    assert_eq!(round_up(usize::MAX - 15, 16), usize::MAX - 15);
    assert_eq!(round_up(usize::MAX - 30, 16), usize::MAX - 15);
}

#[test]
fn checked_round_up_agrees_with_round_up_where_it_fits() {
    for size in 0..200usize {
        for multiple in [1usize, 2, 4, 16, 64, 128] {
            assert_eq!(checked_round_up(size, multiple), Some(round_up(size, multiple)));
        }
    }
}

#[test]
fn checked_round_up_takes_any_multiple() {
    assert_eq!(checked_round_up(10, 3), Some(12));
    assert_eq!(checked_round_up(12, 3), Some(12));
    assert_eq!(checked_round_up(0, 7), Some(0));
}

#[test]
fn checked_round_up_refuses_what_does_not_fit() {
    assert_eq!(checked_round_up(usize::MAX, 16), None);
    assert_eq!(checked_round_up(usize::MAX - 14, 16), None);
    assert_eq!(checked_round_up(usize::MAX - 15, 16), Some(usize::MAX - 15));
}
