use alistral::aggregate::{EntityWithListens, WorkWithListens};
use alistral::display::format_disambiguation;
use alistral::entity::Work;
use alistral::listen::{Listen, ListenCollection};
use alistral::stats::{by_listen_count, stats_line, stats_works};
use alistral::text::{decimal_string, joined};

#[test]
fn disambiguation_follows_the_title_in_grey() {
    assert_eq!(
        format_disambiguation("Heroes", &Some("live".to_string())),
        "Heroes\u{1b}[38;2;200;200;200m (live)\u{1b}[39m"
    );
}

#[test]
fn no_disambiguation_leaves_the_title_alone() {
    assert_eq!(format_disambiguation("Heroes", &None), "Heroes");
    assert_eq!(format_disambiguation("Heroes", &Some(String::new())), "Heroes");
    assert_eq!(format_disambiguation("", &None), "");
}

#[test]
fn disambiguation_keeps_other_scripts() {
    assert_eq!(
        format_disambiguation("夜に駆ける", &Some("アニメ".to_string())),
        "夜に駆ける\u{1b}[38;2;200;200;200m (アニメ)\u{1b}[39m"
    );
}

#[test]
fn numbers_are_written_in_decimal() {
    assert_eq!(decimal_string(0), "0");
    assert_eq!(decimal_string(7), "7");
    assert_eq!(decimal_string(10), "10");
    assert_eq!(decimal_string(1_234_567_890), "1234567890");
    assert_eq!(decimal_string(u64::MAX), "18446744073709551615");
    assert_eq!(joined("Radio #", "5"), "Radio #5");
}

fn heard(mbid: &str, title: &str, count: usize) -> WorkWithListens {
    EntityWithListens::new(
        Work { mbid: mbid.to_string(), title: title.to_string() },
        ListenCollection::new(
            (0..count)
                .map(|i| Listen {
                    user: "someone".to_string(),
                    recording: mbid.to_string(),
                    listened_at: i as i64,
                })
                .collect(),
        ),
    )
}

#[test]
fn stats_rank_by_listen_count() {
    let groups = vec![
        heard("w1", "Nocturne", 2),
        heard("w2", "Etude", 12),
        heard("w3", "Prelude", 2),
        heard("w4", "Waltz", 0),
        heard("w5", "Ballade", 5),
    ];
    let (sorted, lines) = stats_works(groups);
    assert_eq!(
        sorted.iter().map(|g| g.entity.mbid.clone()).collect::<Vec<_>>(),
        vec!["w2", "w5", "w1", "w3", "w4"]
    );
    assert_eq!(lines, vec!["[12] Etude", "[5] Ballade", "[2] Nocturne", "[2] Prelude", "[0] Waltz"]);
}

#[test]
fn stats_of_nothing_are_empty() {
    let (sorted, lines) = stats_works(Vec::new());
    assert!(sorted.is_empty());
    assert!(lines.is_empty());
    assert!(by_listen_count::<Work>(Vec::new()).is_empty());
    assert_eq!(stats_line(3, "Prelude"), "[3] Prelude");
}
