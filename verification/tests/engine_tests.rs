use horse_racing::engine::derive_score;
use horse_racing::engine::MIN_PASSION;
use horse_racing::engine::MIN_STAMINA;

#[test]
fn score_from_available_feed_is_price_plus_time_digit_over_floor() {
    // (123 + 1000) % 10 = 3, floor 20.
    assert_eq!(derive_score(Some(123), 1000, 20), 23);
    // (456 + 1000) % 10 = 6, floor 20.
    assert_eq!(derive_score(Some(456), 1000, 20), 26);
    // (7 + 2000) % 10 = 7 over a zero floor: the bare delta.
    assert_eq!(derive_score(Some(7), 2000, 0), 7);
}

#[test]
fn score_from_unavailable_feed_falls_back_to_the_clock() {
    // 2000 % 10 = 0.
    assert_eq!(derive_score(None, 2000, 26), 26);
    // 1234 % 10 = 4.
    assert_eq!(derive_score(None, 1234, 20), 24);
}

#[test]
fn derive_score_is_deterministic() {
    let a = derive_score(Some(987_654_321), 1_700_000_000, 20);
    let b = derive_score(Some(987_654_321), 1_700_000_000, 20);
    assert_eq!(a, b);
    let c = derive_score(None, 1_700_000_000, 144);
    let d = derive_score(None, 1_700_000_000, 144);
    assert_eq!(c, d);
}

#[test]
fn mint_floor_scores_stay_in_range_for_many_inputs() {
    let mut ts: i64 = 0;
    while ts < 100 {
        let with_feed = derive_score(Some((ts as u64) * 37 + 5), ts, MIN_PASSION);
        assert!((20..=29).contains(&with_feed));
        let without_feed = derive_score(None, ts, MIN_STAMINA);
        assert!((20..=29).contains(&without_feed));
        ts += 1;
    }
}

#[test]
fn negative_timestamps_are_read_as_unsigned_words() {
    // -3 reads as 2^64 - 3, whose low decimal digit is 3.
    assert_eq!(derive_score(None, -3, 20), 23);
    // 5 + (2^64 - 3) wraps to 2; digit 2 over the floor.
    assert_eq!(derive_score(Some(5), -3, 20), 22);
}

#[test]
fn scores_wrap_at_the_eight_bit_boundary() {
    // 250 + 9 = 259 wraps to 3.
    assert_eq!(derive_score(Some(9), 0, 250), 3);
    assert_eq!(derive_score(None, 9, 250), 3);
    // 250 + 5 stays below the boundary.
    assert_eq!(derive_score(Some(5), 0, 250), 255);
}

#[test]
fn large_prices_mix_with_the_clock_modulo_two_to_the_sixty_four() {
    // u64::MAX + 11 wraps to 10; low digit 0.
    assert_eq!(derive_score(Some(u64::MAX), 11, 20), 20);
    // u64::MAX + 15 wraps to 14; low digit 4.
    assert_eq!(derive_score(Some(u64::MAX), 15, 20), 24);
}
