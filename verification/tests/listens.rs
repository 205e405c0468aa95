use alistral::listen::{Listen, ListenCollection};

fn listen(recording: &str, at: i64) -> Listen {
    Listen { user: "someone".to_string(), recording: recording.to_string(), listened_at: at }
}

#[test]
fn extremes_of_a_history() {
    let history = ListenCollection::new(vec![listen("a", 30), listen("b", 10), listen("a", 20)]);
    assert_eq!(history.listen_count(), 3);
    assert_eq!(history.latest_listen_date(), Some(30));
    assert_eq!(history.oldest_listen_date(), Some(10));
}

#[test]
fn empty_history_has_no_extremes() {
    let history = ListenCollection::default();
    assert!(history.is_empty());
    assert_eq!(history.latest_listen_date(), None);
    assert_eq!(history.oldest_listen_date(), None);
}

#[test]
fn merge_concatenates_without_dedup() {
    let mut first = ListenCollection::new(vec![listen("a", 5), listen("a", 7)]);
    let second = ListenCollection::new(vec![listen("a", 7), listen("a", 1)]);
    first.merge(second);
    assert_eq!(first.listen_count(), 4);
    assert_eq!(first.latest_listen_date(), Some(7));
    assert_eq!(first.oldest_listen_date(), Some(1));
    assert_eq!(first.get(3).map(|l| l.listened_at), Some(1));
    assert!(first.get(4).is_none());
}
