use dice::chance::{chance, chance_of, percent_check, roll_under};
use dice::dice::{roll, total_of_draws, DiceExt};
use dice::parity::{roll_parity_is_high, roll_parity_is_low, HiLo};
use dice::source::Source;

/// See that D6 rolls stay within range.
#[test]
fn d6_stay_in_range() {
    let mut src = Source::new();
    for _ in 0..10_000 {
        let d = 1.d6(&mut src);
        assert!(d >= 1 && d <= 6);
    }
}

/// See that d(97) rolls stay within range.
#[test]
fn d97_stay_in_range() {
    let mut src = Source::new();
    for _ in 0..10_000 {
        let d = 1.d(&mut src, 97);
        assert!(d >= 1 && d <= 97);
    }
}

#[test]
fn chance_macro_works() {
    let mut src = Source::new();
    for _ in 0..20 {
        println!("{}", chance_of(&mut src, 5, 50))
    }
}

#[test]
fn roll_stays_between_count_and_count_times_sides() {
    let mut src = Source::new();
    for sides in [1usize, 2, 6, 37, 100] {
        for count in 1..=50i32 {
            let r = roll(&mut src, count, sides);
            assert!(r >= count && r <= count * sides as i32);
        }
    }
}

#[test]
fn negative_count_rolls_negative_magnitude() {
    let mut src = Source::new();
    for sides in [1usize, 4, 20, 100] {
        for count in 1..=50i32 {
            let r = roll(&mut src, -count, sides);
            assert!(-r >= count && -r <= count * sides as i32);
        }
    }
}

#[test]
fn one_sided_dice_are_exact() {
    let mut src = Source::new();
    assert_eq!(roll(&mut src, 7, 1), 7);
    assert_eq!(roll(&mut src, -7, 1), -7);
    assert_eq!(5.d(&mut src, 1), 5);
}

#[test]
fn zero_dice_roll_zero() {
    let mut src = Source::new();
    assert_eq!(roll(&mut src, 0, 6), 0);
    assert_eq!(0.d20(&mut src), 0);
    assert_eq!(0.d(&mut src, usize::MAX), 0);
}

#[test]
fn named_dice_stay_in_range() {
    let mut src = Source::new();
    for _ in 0..1_000 {
        assert!((1..=2).contains(&1.d2(&mut src)));
        assert!((1..=3).contains(&1.d3(&mut src)));
        assert!((1..=4).contains(&1.d4(&mut src)));
        assert!((1..=5).contains(&1.d5(&mut src)));
        assert!((1..=8).contains(&1.d8(&mut src)));
        assert!((1..=10).contains(&1.d10(&mut src)));
        assert!((1..=12).contains(&1.d12(&mut src)));
        assert!((1..=20).contains(&1.d20(&mut src)));
        assert!((1..=100).contains(&1.d100(&mut src)));
        assert!((2..=40).contains(&2.d20(&mut src)));
        assert!((-12..=-3).contains(&(-3).d4(&mut src)));
    }
}

#[test]
fn three_d6_stays_in_range() {
    let mut src = Source::new();
    for _ in 0..1_000 {
        let r = roll(&mut src, 3, 6);
        assert!((3..=18).contains(&r));
        let s = roll(&mut src, 1, 6);
        assert!((1..=6).contains(&s));
    }
}

#[test]
fn total_of_draws_sums_and_signs() {
    assert_eq!(total_of_draws(3, 6, &vec![1, 6, 4]), 11);
    assert_eq!(total_of_draws(-3, 6, &vec![1, 6, 4]), -11);
    assert_eq!(total_of_draws(0, 6, &vec![]), 0);
    assert_eq!(total_of_draws(2, 100, &vec![100, 99]), 199);
}

#[test]
fn parity_high_and_low() {
    for v in [-7i32, -4, -1, 0, 1, 2, 3, 10, i32::MAX, i32::MIN] {
        assert_ne!(v.hi(), v.lo());
    }
    assert!(4.hi());
    assert!(0.hi());
    assert!(7.lo());
    assert!((-3).lo());
    assert!((-2).hi());
}

#[test]
fn parity_rolls_are_complementary_in_kind() {
    let mut src = Source::new();
    let mut lows = 0;
    let mut highs = 0;
    for _ in 0..1_000 {
        if roll_parity_is_low(&mut src) {
            lows += 1;
        }
        if roll_parity_is_high(&mut src) {
            highs += 1;
        }
    }
    assert!(lows > 0 && lows < 1_000);
    assert!(highs > 0 && highs < 1_000);
}

#[test]
fn chance_at_eighteen_always_succeeds() {
    let mut src = Source::new();
    for _ in 0..1_000 {
        assert_eq!(chance(&mut src, 18, 42), Some(42));
        assert_eq!(18.chance(&mut src, -5), Some(-5));
    }
}

#[test]
fn chance_below_three_always_fails() {
    let mut src = Source::new();
    for _ in 0..1_000 {
        assert_eq!(chance(&mut src, 2, 42), None);
        assert_eq!(2.chance(&mut src, 42), None);
        assert_eq!(i32::MIN.chance(&mut src, 1), None);
    }
}

#[test]
fn roll_under_decides_on_threshold() {
    assert_eq!(roll_under(10, 10, 5), Some(5));
    assert_eq!(roll_under(9, 10, 5), Some(5));
    assert_eq!(roll_under(11, 10, 5), None);
    assert_eq!(roll_under(3, 2, 5), None);
}

#[test]
fn percent_check_gives_value_or_zero() {
    assert_eq!(percent_check(5, 5, 50), 50);
    assert_eq!(percent_check(6, 5, 50), 0);
    assert_eq!(percent_check(100, 100, -3), -3);
}

#[test]
fn chance_of_extremes() {
    let mut src = Source::new();
    for _ in 0..1_000 {
        assert_eq!(chance_of(&mut src, 100, 10), 10);
        assert_eq!(chance_of(&mut src, 0, 10), 0);
        let r = chance_of(&mut src, 90, 10);
        assert!(r == 10 || r == 0);
    }
}

#[test]
fn d6_is_roughly_uniform() {
    let mut src = Source::new();
    let mut counts = [0u32; 6];
    for _ in 0..10_000 {
        counts[(roll(&mut src, 1, 6) - 1) as usize] += 1;
    }
    for c in counts {
        assert!(c > 1_400 && c < 1_950, "face count {}", c);
    }
}

#[test]
fn chance_ten_succeeds_about_half_the_time() {
    let mut src = Source::new();
    // 108 of the 216 outcomes of 3d6 total at most 10.
    let mut hits = 0;
    for _ in 0..10_000 {
        if chance(&mut src, 10, 1).is_some() {
            hits += 1;
        }
    }
    assert!(hits > 4_600 && hits < 5_400, "hits {}", hits);
}
