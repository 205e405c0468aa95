use alistral::history::{
    fetch_latest_listens_of_user, into_mapped_collection, FetchStep, ListenFetchQuery,
    ListenFetchQueryReturn, ListenMappingState,
};
use alistral::listen::Listen;
use alistral::paginator::{
    ListenAPIPaginator, ListenAPIPaginatorBuilder, ListenAPIPaginatorBuilderError,
    DEFAULT_PAGE_COUNT,
};

fn listen(recording: &str, at: i64) -> Listen {
    Listen { user: "someone".to_string(), recording: recording.to_string(), listened_at: at }
}

#[test]
fn query_steps_follow_its_settings() {
    let query = ListenFetchQuery::new("someone".to_string());
    assert_eq!(query.fetch(false), vec![FetchStep::RefreshListens]);
    assert_eq!(query.fetch(true), Vec::new());
    let query = query.with_recordings_redirects(true).with_selection(ListenFetchQueryReturn::Mapped);
    assert_eq!(
        query.fetch(false),
        vec![FetchStep::RefreshListens, FetchStep::RefreshRedirects, FetchStep::LoadMapped]
    );
    assert_eq!(query.fetch(true), vec![FetchStep::RefreshRedirects, FetchStep::LoadMapped]);
    let query = query.with_recordings_redirects(false).with_selection(ListenFetchQueryReturn::Unmapped);
    assert_eq!(query.fetch(true), vec![FetchStep::LoadUnmapped]);
    assert_eq!(query.username(), "someone");
}

#[test]
fn query_without_a_selection_gives_no_listens() {
    let query = ListenFetchQuery::new("someone".to_string());
    assert!(query.collect(vec![listen("a", 1)]).is_empty());
    let query = query.with_selection(ListenFetchQueryReturn::Mapped);
    let collected = query.collect(vec![listen("a", 1), listen("b", 2)]);
    assert_eq!(collected.listen_count(), 2);
    assert_eq!(collected.get(1).unwrap().recording, "b");
}

#[test]
fn a_first_pull_goes_on_until_the_service_names_no_older_page() {
    let mut pull = fetch_latest_listens_of_user(None, 1_000);
    assert_eq!(pull.next_pull(), Some(1_000));
    pull.pulled(Some(400));
    assert_eq!(pull.next_pull(), Some(400));
    pull.pulled(Some(i64::MIN));
    assert_eq!(pull.next_pull(), Some(i64::MIN));
    pull.pulled(None);
    assert_eq!(pull.next_pull(), None);
}

#[test]
fn a_later_pull_stops_behind_the_latest_stored_listen() {
    let mut pull = fetch_latest_listens_of_user(Some(500), 1_000);
    assert_eq!(pull.next_pull(), Some(1_000));
    pull.pulled(Some(500));
    assert_eq!(pull.next_pull(), Some(500));
    pull.pulled(Some(499));
    assert_eq!(pull.next_pull(), None);
    let mut pull = fetch_latest_listens_of_user(Some(500), 1_000);
    pull.pulled(None);
    assert_eq!(pull.next_pull(), None);
    let pull = fetch_latest_listens_of_user(Some(2_000), 1_000);
    assert_eq!(pull.next_pull(), None);
}

#[test]
fn mapped_listens_are_kept_in_order() {
    let listens = vec![
        ListenMappingState::Unmapped(listen("x", 1)),
        ListenMappingState::Mapped(listen("a", 2)),
        ListenMappingState::Mapped(listen("b", 3)),
        ListenMappingState::Unmapped(listen("y", 4)),
        ListenMappingState::Mapped(listen("a", 5)),
    ];
    let mapped = into_mapped_collection(listens);
    assert_eq!(mapped, vec![listen("a", 2), listen("b", 3), listen("a", 5)]);
    assert!(into_mapped_collection(Vec::new()).is_empty());
}

fn paginator() -> ListenAPIPaginator {
    ListenAPIPaginatorBuilder::new().with_user_name("someone".to_string()).build().unwrap()
}

#[test]
fn paginator_builder_defaults() {
    let built = paginator();
    assert_eq!(built.get_user_name(), "someone");
    assert_eq!(built.get_min_ts(), None);
    assert_eq!(built.get_max_ts(), None);
    assert_eq!(built.get_count(), Some(999));
    assert_eq!(DEFAULT_PAGE_COUNT, 999);
}

#[test]
fn paginator_builder_sets_what_is_given() {
    let built = ListenAPIPaginatorBuilder::new()
        .with_min_ts(5)
        .with_user_name("someone".to_string())
        .with_max_ts(50)
        .with_count(10)
        .with_time_range(3)
        .build()
        .unwrap();
    assert_eq!(built.get_min_ts(), Some(5));
    assert_eq!(built.get_max_ts(), Some(50));
    assert_eq!(built.get_count(), Some(10));
    assert_eq!(built.clone(), built);
}

#[test]
fn paginator_builder_needs_a_user() {
    let built = ListenAPIPaginatorBuilder::new().with_count(10).build();
    assert_eq!(built.err(), Some(ListenAPIPaginatorBuilderError::MissingUserName));
}

#[test]
fn paginator_moves_behind_the_oldest_listen_of_a_page() {
    let mut position = paginator();
    position.update_max_ts(&vec![listen("a", 300), listen("b", 100), listen("c", 200)]);
    assert_eq!(position.get_max_ts(), Some(100));
    position.update_max_ts(&vec![listen("a", 90)]);
    assert_eq!(position.get_max_ts(), Some(90));
    position.update_max_ts(&Vec::new());
    assert_eq!(position.get_max_ts(), None);
    assert_eq!(position.get_user_name(), "someone");
    assert_eq!(position.get_count(), Some(999));
}

#[test]
fn reader_hands_out_the_last_listen_first() {
    let mut reader = paginator().into_reader();
    assert!(reader.needs_page());
    assert!(reader.next().is_none());
    reader.page_pulled(vec![listen("a", 300), listen("b", 100), listen("c", 200)]);
    assert!(!reader.needs_page());
    assert_eq!(reader.position().get_max_ts(), Some(100));
    assert_eq!(reader.next(), Some(listen("c", 200)));
    assert_eq!(reader.next(), Some(listen("b", 100)));
    assert_eq!(reader.next(), Some(listen("a", 300)));
    assert!(reader.needs_page());
    reader.page_pulled(Vec::new());
    assert_eq!(reader.position().get_max_ts(), None);
    assert!(reader.next().is_none());
}
