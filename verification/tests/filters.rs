use alistral::aggregate::{EntityWithListens, RecordingWithListens};
use alistral::entity::Recording;
use alistral::filters::booleans::{and_filter, is_among};
use alistral::filters::cooldown::{cooldown_filter, is_out_of_cooldown};
use alistral::filters::min_listens::{has_min_listens, min_listen_filter};
use alistral::filters::timeouts::{timeout_filter, Timeout, TimeoutRegistry};
use alistral::listen::{Listen, ListenCollection};

fn heard(mbid: &str, at: &[i64]) -> RecordingWithListens {
    EntityWithListens::new(
        Recording { mbid: mbid.to_string(), title: mbid.to_uppercase(), length: None },
        ListenCollection::new(
            at.iter()
                .map(|t| Listen {
                    user: "someone".to_string(),
                    recording: mbid.to_string(),
                    listened_at: *t,
                })
                .collect(),
        ),
    )
}

fn ids(items: &[RecordingWithListens]) -> Vec<String> {
    items.iter().map(|r| r.entity.mbid.clone()).collect()
}

#[test]
fn min_listen_filter_keeps_exactly_those_at_or_above_the_threshold() {
    let items = vec![heard("a", &[1, 2, 3]), heard("b", &[1]), heard("c", &[1, 2]), heard("d", &[])];
    let kept = min_listen_filter(items, 2);
    assert_eq!(ids(&kept), vec!["a", "c"]);
}

#[test]
fn min_listen_filter_with_zero_is_a_no_op() {
    let items = vec![heard("a", &[1, 2, 3]), heard("b", &[]), heard("c", &[1])];
    let kept = min_listen_filter(items, 0);
    assert_eq!(ids(&kept), vec!["a", "b", "c"]);
    assert_eq!(kept[0].listen_count(), 3);
}

#[test]
fn min_listen_filter_with_a_huge_threshold_drops_everything() {
    let kept = min_listen_filter(vec![heard("a", &[1, 2, 3])], u64::MAX);
    assert!(kept.is_empty());
    assert!(has_min_listens(&heard("a", &[1]), 1));
    assert!(!has_min_listens(&heard("a", &[1]), 2));
}

#[test]
fn cooldown_filter_drops_what_was_heard_within_the_window() {
    let now = 10_000;
    let items = vec![
        heard("long ago", &[100, 8_000]),
        heard("just now", &[100, 9_999]),
        heard("on the edge", &[9_000]),
        heard("one past the edge", &[8_999]),
        heard("never", &[]),
        heard("in the future", &[10_500]),
    ];
    let kept = cooldown_filter(items, 1_000, now);
    assert_eq!(ids(&kept), vec!["long ago", "one past the edge", "never"]);
}

#[test]
fn cooldown_goes_by_the_latest_listen_only() {
    let item = heard("a", &[0, 1, 2, 990]);
    assert!(!is_out_of_cooldown(&item, 100, 1_000));
    assert!(is_out_of_cooldown(&item, 9, 1_000));
    assert!(!is_out_of_cooldown(&item, 10, 1_000));
}

#[test]
fn cooldown_of_zero_still_drops_what_is_heard_right_now() {
    let kept = cooldown_filter(vec![heard("a", &[50]), heard("b", &[49])], 0, 50);
    assert_eq!(ids(&kept), vec!["b"]);
}

#[test]
fn cooldown_survives_the_ends_of_the_timestamp_range() {
    let kept = cooldown_filter(
        vec![heard("a", &[i64::MIN]), heard("b", &[i64::MAX])],
        u64::MAX,
        i64::MAX,
    );
    assert!(kept.is_empty());
    let kept = cooldown_filter(vec![heard("a", &[i64::MIN])], u64::MAX - 1, i64::MAX);
    assert_eq!(ids(&kept), vec!["a"]);
}

#[test]
fn and_filter_keeps_what_occurs_in_the_other_radio() {
    let radio = vec![heard("a", &[1]), heard("b", &[2]), heard("c", &[3]), heard("a", &[4])];
    let other = vec![heard("c", &[]), heard("a", &[9, 9]), heard("z", &[1])];
    assert!(is_among(&radio[1], &radio));
    assert!(!is_among(&radio[1], &other));
    let kept = and_filter(radio, other);
    assert_eq!(ids(&kept), vec!["a", "c", "a"]);
    assert_eq!(kept[0].latest_listen_date(), Some(1));
    assert_eq!(kept[2].latest_listen_date(), Some(4));
}

#[test]
fn and_filter_with_an_empty_reference_keeps_nothing() {
    assert!(and_filter(vec![heard("a", &[1])], Vec::new()).is_empty());
}

#[test]
fn timeout_filter_drops_what_is_on_hold() {
    let mut registry = TimeoutRegistry::new();
    registry.set_timeout("b".to_string(), 2_000);
    registry.set_timeout("c".to_string(), 1_000);
    registry.set_timeout("d".to_string(), 500);
    let items = vec![heard("a", &[1]), heard("b", &[1]), heard("c", &[1]), heard("d", &[1])];
    let kept = timeout_filter(items, &registry, 1_000);
    assert_eq!(ids(&kept), vec!["a", "c", "d"]);
}

#[test]
fn a_recording_is_on_hold_while_any_entry_runs() {
    let registry = TimeoutRegistry::from_entries(vec![
        Timeout { mbid: "a".to_string(), until: 10 },
        Timeout { mbid: "a".to_string(), until: 100 },
        Timeout { mbid: "b".to_string(), until: 1_000 },
    ]);
    assert!(registry.is_timed_out(&"a".to_string(), 50));
    assert!(registry.is_timed_out(&"a".to_string(), 99));
    assert!(!registry.is_timed_out(&"a".to_string(), 100));
    assert!(!registry.is_timed_out(&"c".to_string(), 0));
    assert!(registry.is_timed_out(&"b".to_string(), i64::MIN));
}

#[test]
fn filters_compose_without_reordering() {
    let items = vec![
        heard("e", &[1, 2, 3]),
        heard("d", &[1, 2, 999]),
        heard("c", &[1]),
        heard("b", &[1, 2, 3, 4]),
        heard("a", &[5, 6, 7]),
    ];
    let mut registry = TimeoutRegistry::new();
    registry.set_timeout("b".to_string(), 5_000);
    let kept = timeout_filter(cooldown_filter(min_listen_filter(items, 2), 100, 1_000), &registry, 1_000);
    assert_eq!(ids(&kept), vec!["e", "a"]);
}
