use cafe_core::dice::sum_rolls;
use cafe_core::dice::draw_rolls;
use cafe_core::dice::{parse_roll, roll_dice};

#[test]
fn parse_simple_d5() {
    let r = parse_roll("!roll d5");
    assert_eq!(r, Some((1, 5)));
}

#[test]
fn parse_single_d20() {
    let r = parse_roll("!roll 1d20");
    assert_eq!(r, Some((1, 20)));
}

#[test]
fn parse_multi_d6() {
    let r = parse_roll("!roll 2d6");
    assert_eq!(r, Some((2, 6)));
}

#[test]
fn parse_with_shorthand() {
    let r = parse_roll("!r d10");
    assert_eq!(r, Some((1, 10)));
}

#[test]
fn invalid() {
    assert!(parse_roll("!roll abc").is_none());
    assert!(parse_roll("hello").is_none());
}

#[test]
fn roll_total_within_bounds() {
    for _ in 0..50 {
        let t = roll_dice(3, 6);
        assert!((3..=18).contains(&t));
    }
    assert_eq!(roll_dice(4, 1), 4);
}

#[test]
fn parse_rejects_zero_dice() {
    assert!(parse_roll("!roll 0d6").is_none());
    assert!(parse_roll("!roll 2d0").is_none());
    assert_eq!(parse_roll("!roll 3D8"), Some((3, 8)));
}

#[test]
fn sum_rolls_adds_the_results() {
    assert_eq!(sum_rolls(&vec![]), 0);
    assert_eq!(sum_rolls(&vec![3, 1, 6]), 10);
}

#[test]
fn draw_rolls_gives_one_result_per_die_in_range() {
    let rolls = draw_rolls(50, 6);
    assert_eq!(rolls.len(), 50);
    assert!(rolls.iter().all(|r| (1..=6).contains(r)));
    assert!(draw_rolls(0, 6).is_empty());
}
