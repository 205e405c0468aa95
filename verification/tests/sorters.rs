use alistral::aggregate::{EntityWithListens, RecordingWithListens};
use alistral::entity::Recording;
use alistral::listen::{Listen, ListenCollection};
use alistral::ranking::rank_descending;
use alistral::score::{wide_product, Score};
use alistral::sorters::listen_rate::{
    listen_rate_of, listen_rate_sorter, listen_rate_sorter_with, listening_span_of,
    DEFAULT_FALLBACK_SPAN,
};
use alistral::sorters::overdue::{
    leading_index, overdue_factor_of, overdue_factor_sorter, overdue_factor_sorter_cumulative,
    overdue_factor_sorter_cumulative_with, overdue_factor_sorter_with, overdue_of, overdue_sorter,
    OverdueFactorCumulative, DEFAULT_FALLBACK_INTERVAL,
};

fn heard_for(mbid: &str, length: Option<i64>, at: &[i64]) -> RecordingWithListens {
    EntityWithListens::new(
        Recording { mbid: mbid.to_string(), title: mbid.to_uppercase(), length },
        ListenCollection::new(
            at.iter()
                .map(|t| Listen {
                    user: "someone".to_string(),
                    recording: mbid.to_string(),
                    listened_at: *t,
                })
                .collect(),
        ),
    )
}

fn heard(mbid: &str, at: &[i64]) -> RecordingWithListens {
    heard_for(mbid, None, at)
}

fn ids(items: &[RecordingWithListens]) -> Vec<String> {
    items.iter().map(|r| r.entity.mbid.clone()).collect()
}

fn score(negative: bool, numerator: u128, denominator: u64) -> Score {
    Score { negative, numerator, denominator }
}

#[test]
fn wide_product_is_exact_beyond_128_bits() {
    assert_eq!(wide_product(0, 0), (0, 0));
    assert_eq!(wide_product(6, 7), (0, 42));
    assert_eq!(wide_product(1 << 64, 1), (1, 0));
    assert_eq!(wide_product(u128::MAX, 1), (u64::MAX as u128, u64::MAX));
    // (2^128 - 1) * (2^64 - 1) = 2^192 - 2^128 - 2^64 + 1
    assert_eq!(wide_product(u128::MAX, u64::MAX), (u128::MAX - (1 << 64), 1));
    assert_eq!(wide_product(u64::MAX as u128, u64::MAX), (u64::MAX as u128 - 1, 1));
}

#[test]
fn scores_compare_as_quotients() {
    assert!(score(false, 1, 2).is_above(&score(false, 1, 3)));
    assert!(!score(false, 1, 3).is_above(&score(false, 1, 2)));
    assert!(!score(false, 2, 4).is_above(&score(false, 1, 2)));
    assert!(!score(false, 1, 2).is_above(&score(false, 2, 4)));
    assert!(score(false, 0, 5).is_above(&score(true, 1, 1000)));
    assert!(!score(true, 1, 1000).is_above(&score(false, 0, 5)));
    assert!(score(true, 1, 3).is_above(&score(true, 1, 2)));
    assert!(!score(true, 1, 2).is_above(&score(true, 1, 3)));
    assert!(!score(true, 0, 1).is_above(&score(false, 0, 1)));
    assert!(!score(false, 0, 1).is_above(&score(true, 0, 7)));
}

#[test]
fn scores_compare_exactly_where_products_overflow() {
    let big = score(false, u128::MAX, u64::MAX);
    let bigger = score(false, u128::MAX, u64::MAX - 1);
    assert!(bigger.is_above(&big));
    assert!(!big.is_above(&bigger));
    assert!(!big.is_above(&big));
    let near = score(false, u128::MAX - 1, u64::MAX);
    assert!(big.is_above(&near));
    assert!(score(true, u128::MAX - 1, u64::MAX).is_above(&score(true, u128::MAX, u64::MAX)));
}

#[test]
fn ranking_is_descending_and_stable() {
    let items = vec!["a", "b", "c", "d", "e", "f"];
    let scores = vec![
        score(false, 1, 1),
        score(false, 3, 1),
        score(false, 2, 2),
        score(false, 6, 2),
        score(true, 1, 1),
        score(false, 2, 1),
    ];
    assert_eq!(rank_descending(items, scores), vec!["b", "d", "f", "a", "c", "e"]);
}

#[test]
fn ranking_agrees_with_a_stable_sort_on_many_items() {
    // a small generator of numbers, fixed so that the test always sees the same input
    let mut state: u64 = 0x2545_f491_4f6c_dd1d;
    let mut draw = move || {
        state ^= state << 13;
        state ^= state >> 7;
        state ^= state << 17;
        state
    };
    for len in [1usize, 2, 3, 7, 64, 1000] {
        let keys: Vec<(bool, u128, u64)> = (0..len)
            .map(|_| (draw() % 5 == 0, (draw() % 12) as u128, draw() % 4 + 1))
            .collect();
        let items: Vec<usize> = (0..len).collect();
        let scores: Vec<Score> = keys.iter().map(|k| score(k.0, k.1, k.2)).collect();
        let ranked = rank_descending(items, scores);
        let value = |i: &usize| {
            let (negative, numerator, denominator) = keys[*i];
            let sign = if negative { -1.0 } else { 1.0 };
            sign * numerator as f64 / denominator as f64
        };
        let mut expected: Vec<usize> = (0..len).collect();
        expected.sort_by(|a, b| value(b).partial_cmp(&value(a)).unwrap());
        assert_eq!(ranked, expected);
    }
}

#[test]
fn ranking_nothing_gives_nothing() {
    let ranked: Vec<u8> = rank_descending(Vec::new(), Vec::new());
    assert!(ranked.is_empty());
}

#[test]
fn listen_rate_is_count_over_span() {
    let item = heard("a", &[100, 400, 250]);
    assert_eq!(listening_span_of(&item), 300);
    let rate = listen_rate_of(&item, 77);
    assert_eq!((rate.negative, rate.numerator, rate.denominator), (false, 3, 300));
}

#[test]
fn listen_rate_of_a_single_listen_uses_the_fallback_span() {
    let rate = listen_rate_of(&heard("a", &[100]), 77);
    assert_eq!((rate.negative, rate.numerator, rate.denominator), (false, 1, 77));
    let rate = listen_rate_of(&heard("a", &[100, 100]), 77);
    assert_eq!((rate.numerator, rate.denominator), (2, 77));
    let rate = listen_rate_of(&heard("a", &[]), 0);
    assert_eq!((rate.numerator, rate.denominator), (0, 1));
    assert_eq!(DEFAULT_FALLBACK_SPAN, 365 * 24 * 3600);
}

#[test]
fn listen_rate_span_covers_the_whole_timestamp_range() {
    let item = heard("a", &[i64::MAX, i64::MIN]);
    assert_eq!(listening_span_of(&item), u64::MAX);
}

#[test]
fn listen_rate_sorter_puts_more_listens_first_on_equal_spans() {
    let items = vec![
        heard("five", &[0, 10, 20, 30, 100]),
        heard("two", &[0, 100]),
        heard("ten", &[0, 1, 2, 3, 4, 5, 6, 7, 8, 100]),
    ];
    assert_eq!(ids(&listen_rate_sorter(items)), vec!["ten", "five", "two"]);
}

#[test]
fn listen_rate_sorter_keeps_ties_in_input_order() {
    let items = vec![
        heard("first", &[0, 50, 100]),
        heard("second", &[1000, 1100, 1050]),
        heard("faster", &[0, 25, 50]),
        heard("third", &[7, 107, 8]),
        // six listens over twice the span: the same rate as three over one span
        heard("fourth", &[0, 1, 2, 3, 4, 200]),
    ];
    assert_eq!(
        ids(&listen_rate_sorter(items)),
        vec!["faster", "first", "second", "third", "fourth"]
    );
}

#[test]
fn listen_rate_sorter_ranks_single_listens_by_the_fallback() {
    // one listen per 10 seconds of fallback against two listens per 30 seconds
    let items = vec![heard("pair", &[0, 30]), heard("single", &[5])];
    assert_eq!(ids(&listen_rate_sorter_with(items, 10)), vec!["single", "pair"]);
    let items = vec![heard("pair", &[0, 30]), heard("single", &[5])];
    assert_eq!(ids(&listen_rate_sorter_with(items, 20)), vec!["pair", "single"]);
    let items = vec![heard("pair", &[0, 30]), heard("single", &[5])];
    assert_eq!(ids(&listen_rate_sorter_with(items, 15)), vec!["pair", "single"]);
}

#[test]
fn overdue_is_the_time_since_the_latest_listen() {
    let s = overdue_of(&heard("a", &[100, 700, 300]), 1_000);
    assert_eq!((s.negative, s.numerator, s.denominator), (false, 300, 1));
    let s = overdue_of(&heard("a", &[1_500]), 1_000);
    assert_eq!((s.negative, s.numerator, s.denominator), (true, 500, 1));
    let s = overdue_of(&heard("a", &[]), 1_000);
    assert_eq!((s.negative, s.numerator, s.denominator), (false, 0, 1));
    let s = overdue_of(&heard("a", &[i64::MIN]), i64::MAX);
    assert_eq!((s.negative, s.numerator), (false, u64::MAX as u128));
    let s = overdue_of(&heard("a", &[i64::MAX]), i64::MIN);
    assert_eq!((s.negative, s.numerator), (true, u64::MAX as u128));
}

#[test]
fn overdue_sorter_puts_the_longest_unheard_first() {
    let items = vec![
        heard("recent", &[900]),
        heard("old", &[1, 100]),
        heard("future", &[2_000]),
        heard("older", &[50]),
        heard("as old", &[100]),
        heard("never", &[]),
    ];
    assert_eq!(
        ids(&overdue_sorter(items, 1_000)),
        vec!["older", "old", "as old", "recent", "never", "future"]
    );
}

#[test]
fn overdue_factor_divides_by_the_average_interval() {
    // 5 listens over 400 s: average interval 100 s; 300 s since the last
    let s = overdue_factor_of(&heard("a", &[0, 100, 200, 300, 400]), 700, 50);
    assert_eq!((s.negative, s.numerator, s.denominator), (false, 1_200, 400));
    // a single listen: the fallback interval stands for the average
    let s = overdue_factor_of(&heard("a", &[400]), 700, 50);
    assert_eq!((s.negative, s.numerator, s.denominator), (false, 300, 50));
    // listens that do not spread: the fallback as well
    let s = overdue_factor_of(&heard("a", &[400, 400]), 700, 0);
    assert_eq!((s.negative, s.numerator, s.denominator), (false, 300, 1));
    // heard after now: a negative factor
    let s = overdue_factor_of(&heard("a", &[0, 1_000]), 700, 50);
    assert_eq!((s.negative, s.numerator, s.denominator), (true, 300, 1_000));
    assert_eq!(DEFAULT_FALLBACK_INTERVAL, 365 * 24 * 3600);
}

#[test]
fn overdue_factor_is_exact_at_the_limits() {
    let s = overdue_factor_of(&heard("a", &[i64::MIN, i64::MIN + 1, i64::MIN + 2]), i64::MAX, 1);
    assert_eq!(s.numerator, (u64::MAX as u128 - 2) * 2);
    assert_eq!(s.denominator, 2);
}

#[test]
fn overdue_factor_sorter_normalises_by_cadence() {
    let now = 10_000;
    let items = vec![
        // every 1000 s, last 2000 s ago: factor 2
        heard("slow", &[6_000, 7_000, 8_000]),
        // every 10 s, last 100 s ago: factor 10
        heard("fast", &[9_880, 9_890, 9_900]),
        // every 100 s, last 200 s ago: factor 2, a tie with "slow"
        heard("medium", &[9_600, 9_700, 9_800]),
        // every 50 s, last 75 s ago: factor 1.5
        heard("steady", &[9_825, 9_875, 9_925]),
    ];
    assert_eq!(
        ids(&overdue_factor_sorter_with(items, now, 1)),
        vec!["fast", "slow", "medium", "steady"]
    );
}

#[test]
fn overdue_factor_sorter_ranks_single_listens_by_the_fallback_interval() {
    let now = 1_000_000_000;
    let year = DEFAULT_FALLBACK_INTERVAL as i64;
    let items = vec![
        // factor 1: one interval of 100 s has passed
        heard("due", &[now - 300, now - 200, now - 100]),
        // heard once, two years ago: factor 2
        heard("once, long ago", &[now - 2 * year]),
        // heard once, half a year ago: factor 0.5
        heard("once, lately", &[now - year / 2]),
    ];
    assert_eq!(
        ids(&overdue_factor_sorter(items, now)),
        vec!["once, long ago", "due", "once, lately"]
    );
}

#[test]
fn leading_index_is_the_first_of_the_highest() {
    let scores =
        vec![score(false, 1, 2), score(false, 3, 4), score(false, 6, 8), score(true, 9, 1)];
    assert_eq!(leading_index(&scores), 1);
    assert_eq!(leading_index(&vec![score(true, 1, 1)]), 0);
    assert_eq!(leading_index(&vec![score(true, 0, 1), score(false, 0, 9)]), 0);
}

#[test]
fn cumulative_sorter_advances_the_clock_by_what_it_plays() {
    // At 1000: a has factor (1000-900)/100 = 1, b has factor (1000-820)/200 = 0.9.
    // a is taken and plays 300 s. At 1300: b has 480/200 = 2.4, c has 1300-1100 over 100 = 2.
    let items = vec![
        heard_for("a", Some(300_000), &[700, 800, 900]),
        heard_for("b", Some(1_000), &[420, 620, 820]),
        heard_for("c", None, &[900, 1_000, 1_100]),
    ];
    assert_eq!(ids(&overdue_factor_sorter_cumulative_with(items, 1_000, 1)), vec!["a", "b", "c"]);
    // The static ranking at 1000 happens to agree: there c, heard after 1000, is at -1.
    let items = vec![
        heard_for("a", Some(300_000), &[700, 800, 900]),
        heard_for("b", Some(1_000), &[420, 620, 820]),
        heard_for("c", None, &[900, 1_000, 1_100]),
    ];
    assert_eq!(ids(&overdue_factor_sorter_with(items, 1_000, 1)), vec!["a", "b", "c"]);
}

#[test]
fn cumulative_sorter_differs_from_the_static_ranking() {
    // At 0: x = 100/100 = 1, y = 90/100 = 0.9, z = 40/10 = 4, w = 5/90.
    // z is taken first and plays 1000 s.
    // At 1000: x = 1100/100 = 11, y = 1090/100 = 10.9, w = 1005/90 = 11.17:
    // w, last of the static ranking, is now the most overdue.
    let make = || {
        vec![
            heard_for("x", Some(10_000), &[-300, -200, -100]),
            heard_for("y", Some(50_000_000), &[-290, -190, -90]),
            heard_for("z", Some(1_000_000), &[-60, -50, -40]),
            heard_for("w", Some(0), &[-185, -95, -5]),
        ]
    };
    assert_eq!(ids(&overdue_factor_sorter_with(make(), 0, 1)), vec!["z", "x", "y", "w"]);
    assert_eq!(
        ids(&overdue_factor_sorter_cumulative_with(make(), 0, 1)),
        vec!["z", "w", "x", "y"]
    );
    // At 0: p = 50/10 = 5, q = 30/10 = 3, s = 2/1 = 2, r = 100/50 = 2; p plays 1000 s.
    // At 1000: q = 1030/10 = 103, s = 1002/1 = 1002, r = 1100/50 = 22.
    let make = || {
        vec![
            heard_for("q", None, &[-50, -40, -30]),
            heard_for("p", Some(1_000_000), &[-70, -60, -50]),
            heard_for("s", None, &[-4, -3, -2]),
            heard_for("r", None, &[-200, -150, -100]),
        ]
    };
    assert_eq!(ids(&overdue_factor_sorter_with(make(), 0, 1)), vec!["p", "q", "s", "r"]);
    assert_eq!(
        ids(&overdue_factor_sorter_cumulative_with(make(), 0, 1)),
        vec!["p", "s", "q", "r"]
    );
    assert_eq!(ids(&overdue_factor_sorter_cumulative(make(), 0)), vec!["p", "s", "q", "r"]);
}

#[test]
fn cumulative_sorter_hands_out_one_at_a_time() {
    let mut sorter = OverdueFactorCumulative::new(
        vec![heard_for("a", Some(2_500), &[10, 20, 30]), heard_for("b", None, &[5, 25, 45])],
        100,
        1,
    );
    assert_eq!(sorter.remaining(), 2);
    // a: 70/10 = 7, b: 55/20 = 2.75
    assert_eq!(sorter.next().unwrap().entity.mbid, "a");
    assert_eq!(sorter.remaining(), 1);
    assert_eq!(sorter.next().unwrap().entity.mbid, "b");
    assert!(sorter.next().is_none());
    assert!(sorter.next().is_none());
}

#[test]
fn cumulative_clock_stops_at_the_last_timestamp() {
    let items = vec![
        heard_for("a", Some(i64::MAX), &[0, 10]),
        heard_for("b", Some(i64::MAX), &[0, 5]),
        heard_for("c", Some(i64::MAX), &[0, 1]),
    ];
    let sorted = overdue_factor_sorter_cumulative_with(items, i64::MAX - 5, 1);
    assert_eq!(ids(&sorted), vec!["c", "b", "a"]);
}
