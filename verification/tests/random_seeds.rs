use maprando_web::random::{get_random_seed, seed_from_word};

#[test]
fn the_low_half_of_a_word() {
    assert_eq!(seed_from_word(0), 0);
    assert_eq!(seed_from_word(0x1234_5678_9ABC_DEF0), 0x9ABC_DEF0);
    assert_eq!(seed_from_word(u64::MAX), 0xFFFF_FFFF);
}

#[test]
fn random_seeds_are_small_and_vary() {
    let seeds: Vec<usize> = (0..20).map(|_| get_random_seed()).collect();
    assert!(seeds.iter().all(|&seed| seed <= 0xFFFF_FFFF));
    assert!(seeds.iter().any(|&seed| seed != seeds[0]));
}
