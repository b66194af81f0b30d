use maprando_web::percent::percent_of;

/// The percentage in the arithmetic of the machine.
fn machine_percent(enabled: usize, total: usize) -> isize {
    let frac: f32 = (enabled as f32) / (total as f32);
    let whole = (frac * 100.0) as isize;
    if whole == 0 && frac > 0.0 {
        1
    } else if whole == 100 && frac < 1.0 {
        99
    } else {
        whole
    }
}

#[test]
fn known_percentages() {
    assert_eq!(percent_of(0, 0), 0);
    assert_eq!(percent_of(0, 7), 0);
    assert_eq!(percent_of(1, 3), 33);
    assert_eq!(percent_of(2, 3), 66);
    assert_eq!(percent_of(7, 7), 100);
    assert_eq!(percent_of(50, 100), 50);
}

#[test]
fn rounding_can_lose_a_point() {
    assert_eq!(percent_of(53, 100), 52);
    assert_eq!(percent_of(59, 100), 58);
    assert_eq!(percent_of(118, 200), 58);
    assert_eq!(percent_of(58, 100), 58);
}

#[test]
fn zero_is_kept_for_none() {
    assert_eq!(percent_of(1, 1000), 1);
    assert_eq!(percent_of(1, usize::MAX), 1);
    assert_eq!(percent_of(0, usize::MAX), 0);
}

#[test]
fn a_hundred_is_kept_for_all() {
    assert_eq!(percent_of(999, 1000), 99);
    assert_eq!(percent_of(99_999, 100_000), 99);
    assert_eq!(percent_of((1 << 24) - 1, 1 << 24), 99);
    assert_eq!(percent_of(usize::MAX, usize::MAX), 100);
}

#[test]
fn counts_beyond_single_precision_collapse() {
    assert_eq!(percent_of(1 << 24, (1 << 24) + 1), 100);
    assert_eq!(machine_percent(1 << 24, (1 << 24) + 1), 100);
    assert_eq!(percent_of((1 << 24) + 1, (1 << 24) + 2), 99);
}

#[test]
fn small_counts_agree_with_the_machine() {
    for total in 0..700 {
        for enabled in 0..total + 1 {
            assert_eq!(percent_of(enabled, total), machine_percent(enabled, total));
        }
    }
}

#[test]
fn large_counts_agree_with_the_machine() {
    let mut state: u64 = 0x9E37_79B9_7F4A_7C15;
    for round in 0..20_000 {
        state = state.wrapping_mul(6364136223846793005).wrapping_add(1442695040888963407);
        let total = (state >> (round % 60)) as usize;
        state = state.wrapping_mul(6364136223846793005).wrapping_add(1442695040888963407);
        let enabled = if total == 0 { 0 } else { (state as usize) % total };
        assert_eq!(percent_of(enabled, total), machine_percent(enabled, total));
        assert_eq!(percent_of(total, total), machine_percent(total, total));
    }
}

#[test]
fn more_enabled_is_no_less_percent() {
    for total in 1..150 {
        for enabled in 0..total {
            let shown = percent_of(enabled, total);
            let more = percent_of(enabled + 1, total);
            assert!(shown <= more);
            assert!(0 <= shown && more <= 100);
            assert!(shown as usize * total <= 100 * enabled + total);
            assert!(100 * enabled < (shown as usize + 2) * total);
        }
    }
}
