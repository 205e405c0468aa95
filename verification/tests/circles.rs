use alistral::circles::{CircleAction, CircleEvent, CircleWalk, RadioCircle};
use alistral::collector::RadioCollector;
use alistral::entity::{Artist, Recording};
use alistral::radio::{circles_playlist, create_radio_mix, MixAction};
use rand::rngs::StdRng;
use rand::SeedableRng;

const UNKNOWN: &str = "125ec42a-7229-4250-afc5-e057484327fe";
const VARIOUS: &str = "89ad4ac3-39f7-470e-963a-56509c546377";

fn recording(mbid: &str) -> Recording {
    Recording { mbid: mbid.to_string(), title: mbid.to_uppercase(), length: Some(60_000) }
}

fn artist(mbid: &str) -> Artist {
    Artist { mbid: mbid.to_string(), name: mbid.to_uppercase() }
}

/// A small catalog: which artists a recording credits, and which recordings an artist has.
struct Catalog {
    credits: Vec<(String, Vec<String>)>,
}

impl Catalog {
    fn new(credits: &[(&str, &[&str])]) -> Catalog {
        Catalog {
            credits: credits
                .iter()
                .map(|(r, artists)| (r.to_string(), artists.iter().map(|a| a.to_string()).collect()))
                .collect(),
        }
    }

    fn artists_of(&self, recording: &str) -> Vec<Artist> {
        self.credits
            .iter()
            .filter(|(r, _)| r == recording)
            .flat_map(|(_, artists)| artists.iter().map(|a| artist(a)))
            .collect()
    }

    fn recordings_of(&self, wanted: &str) -> Vec<Recording> {
        self.credits
            .iter()
            .filter(|(_, artists)| artists.iter().any(|a| a == wanted))
            .map(|(r, _)| recording(r))
            .collect()
    }
}

fn big_catalog() -> Catalog {
    Catalog::new(&[
        ("s1", &["alice", VARIOUS]),
        ("s2", &["bob", UNKNOWN]),
        ("s3", &["alice", "carol"]),
        ("a1", &["alice"]),
        ("a2", &["alice"]),
        ("a3", &["alice", "dave"]),
        ("b1", &["bob"]),
        ("b2", &["bob", VARIOUS]),
        ("c1", &["carol"]),
        ("c2", &["carol", UNKNOWN]),
        ("v1", &[VARIOUS]),
        ("v2", &[VARIOUS, UNKNOWN]),
        ("u1", &[UNKNOWN]),
    ])
}

/// Runs a whole radio against the catalog and tells what was emitted and which artists were
/// asked about.
fn run(catalog: &Catalog, seeds: &[&str], unlistened: bool, budget: u64, seed: u64) -> (Vec<String>, Vec<String>) {
    let mut rng = StdRng::seed_from_u64(seed);
    let mut mix = create_radio_mix(
        seeds.iter().map(|s| recording(s)).collect(),
        unlistened,
        RadioCollector::new(Some(budget), None),
    );
    let mut asked = Vec::new();
    let mut action = mix.advance(CircleEvent::Next, &mut rng);
    let mut steps = 0;
    loop {
        steps += 1;
        assert!(steps < 10_000, "the walk does not end");
        action = match action {
            MixAction::FetchArtists(of) => {
                assert!(seeds.contains(&of.mbid.as_str()));
                mix.advance(CircleEvent::Artists(catalog.artists_of(&of.mbid)), &mut rng)
            }
            MixAction::FetchRecordings(of) => {
                asked.push(of.mbid.clone());
                mix.advance(CircleEvent::Recordings(catalog.recordings_of(&of.mbid)), &mut rng)
            }
            MixAction::Done => break,
        };
    }
    assert!(mix.done());
    assert_eq!(mix.recordings().len(), mix.len());
    let playlist = mix.into_playlist("someone".to_string());
    (playlist.recordings.iter().map(|r| r.mbid.clone()).collect(), asked)
}

#[test]
fn new_circle_excludes_the_two_placeholders() {
    let circle = RadioCircle::new(true);
    assert!(circle.is_unlistened());
    assert!(circle.is_artist_blacklisted(&UNKNOWN.to_string()));
    assert!(circle.is_artist_blacklisted(&VARIOUS.to_string()));
    assert!(!circle.is_artist_blacklisted(&"alice".to_string()));
    assert!(!circle.is_recording_blacklisted(&"s1".to_string()));
    let circle = RadioCircle::default();
    assert!(!circle.is_unlistened());
    assert!(circle.is_artist_blacklisted(&UNKNOWN.to_string()));
    assert!(circle.is_artist_blacklisted(&VARIOUS.to_string()));
}

#[test]
fn placeholders_are_never_picked() {
    let catalog = big_catalog();
    for seed in 0..200 {
        let (_, asked) = run(&catalog, &["s1", "s2", "s3"], false, 6, seed);
        assert!(!asked.iter().any(|a| a == UNKNOWN || a == VARIOUS));
    }
}

#[test]
fn a_seed_credited_only_to_placeholders_ends_the_walk() {
    let catalog = big_catalog();
    for seed in 0..20 {
        let (emitted, asked) = run(&catalog, &["v1", "v2", "u1"], false, 5, seed);
        assert!(emitted.is_empty());
        assert!(asked.is_empty());
    }
}

#[test]
fn same_seed_same_radio() {
    let catalog = big_catalog();
    let mut distinct = Vec::new();
    for seed in 0..40 {
        let first = run(&catalog, &["s1", "s2", "s3"], false, 5, seed);
        let second = run(&catalog, &["s1", "s2", "s3"], false, 5, seed);
        assert_eq!(first, second);
        if !distinct.contains(&first.0) {
            distinct.push(first.0);
        }
    }
    // the dice are really thrown: other seeds give other radios
    assert!(distinct.len() > 1);
}

#[test]
fn unlistened_mode_never_emits_a_seed_recording() {
    let catalog = big_catalog();
    for seed in 0..200 {
        let (emitted, _) = run(&catalog, &["s1", "s2", "s3", "a1"], true, 10, seed);
        for id in &emitted {
            assert!(!["s1", "s2", "s3", "a1"].contains(&id.as_str()));
        }
    }
}

#[test]
fn listened_mode_may_emit_seed_recordings() {
    let catalog = big_catalog();
    let mut seen_seed = false;
    for seed in 0..50 {
        let (emitted, _) = run(&catalog, &["s1", "s2", "s3"], false, 10, seed);
        seen_seed = seen_seed || emitted.iter().any(|id| id.starts_with('s'));
    }
    assert!(seen_seed);
}

#[test]
fn no_recording_is_emitted_twice() {
    let catalog = big_catalog();
    for seed in 0..100 {
        let (emitted, _) = run(&catalog, &["s1", "s2", "s3"], false, 50, seed);
        let mut unique = emitted.clone();
        unique.sort();
        unique.dedup();
        assert_eq!(unique.len(), emitted.len());
    }
}

#[test]
fn the_budget_cuts_the_radio() {
    let catalog = big_catalog();
    for seed in 0..30 {
        let (emitted, _) = run(&catalog, &["s1", "s3"], false, 2, seed);
        assert_eq!(emitted.len(), 2);
        let (emitted, _) = run(&catalog, &["s1", "s3"], false, 0, seed);
        assert!(emitted.is_empty());
    }
}

#[test]
fn an_empty_seed_gives_an_empty_radio() {
    let catalog = big_catalog();
    let (emitted, asked) = run(&catalog, &[], false, 5, 1);
    assert!(emitted.is_empty());
    assert!(asked.is_empty());
}

#[test]
fn an_artist_without_eligible_recordings_is_excluded_and_the_search_goes_on() {
    // "solo" has only the seed recording; in unlistened mode nothing of solo is eligible.
    // "duo" has one more recording. Whatever is drawn first, the radio is exactly ["d1"].
    let catalog = Catalog::new(&[("seed", &["solo", "duo"]), ("d1", &["duo"])]);
    for seed in 0..50 {
        let (emitted, asked) = run(&catalog, &["seed"], true, 5, seed);
        assert_eq!(emitted, vec!["d1"]);
        // solo is asked about at most once, duo at most twice (once to give d1, once to fail)
        assert!(asked.iter().filter(|a| *a == "solo").count() <= 1);
        assert!(asked.iter().filter(|a| *a == "duo").count() == 2);
    }
}

#[test]
fn the_walk_steps_through_its_states() {
    let mut rng = StdRng::seed_from_u64(7);
    let mut walk: CircleWalk = RadioCircle::new(false).into_walk(vec![recording("s1")]);
    assert!(!walk.is_exhausted());
    match walk.step(CircleEvent::Next, &mut rng) {
        CircleAction::FetchArtists(seed) => assert_eq!(seed.mbid, "s1"),
        _ => panic!("a seed recording should have been drawn"),
    }
    let artists = vec![artist(VARIOUS), artist("alice"), artist(UNKNOWN)];
    match walk.step(CircleEvent::Artists(artists), &mut rng) {
        CircleAction::FetchRecordings(picked) => assert_eq!(picked.mbid, "alice"),
        _ => panic!("alice should have been picked"),
    }
    match walk.step(CircleEvent::Recordings(vec![recording("a1")]), &mut rng) {
        CircleAction::Emit(emitted) => assert_eq!(emitted.mbid, "a1"),
        _ => panic!("a1 should have been emitted"),
    }
    assert!(walk.is_recording_blacklisted(&"a1".to_string()));
    assert!(!walk.is_artist_blacklisted(&"alice".to_string()));
    // next round: alice has nothing left, so she is excluded and a new seed is drawn
    assert!(matches!(walk.step(CircleEvent::Next, &mut rng), CircleAction::FetchArtists(_)));
    assert!(matches!(
        walk.step(CircleEvent::Artists(vec![artist("alice")]), &mut rng),
        CircleAction::FetchRecordings(_)
    ));
    assert!(matches!(
        walk.step(CircleEvent::Recordings(vec![recording("a1")]), &mut rng),
        CircleAction::FetchArtists(_)
    ));
    assert!(walk.is_artist_blacklisted(&"alice".to_string()));
    // now nobody is left
    assert!(matches!(
        walk.step(CircleEvent::Artists(vec![artist("alice"), artist(VARIOUS)]), &mut rng),
        CircleAction::Finish
    ));
    assert!(walk.is_exhausted());
    assert!(matches!(walk.step(CircleEvent::Next, &mut rng), CircleAction::Finish));
}

#[test]
fn a_report_that_was_not_asked_for_ends_the_walk() {
    let mut rng = StdRng::seed_from_u64(7);
    let mut walk = RadioCircle::new(false).into_walk(vec![recording("s1")]);
    assert!(matches!(
        walk.step(CircleEvent::Recordings(vec![recording("a1")]), &mut rng),
        CircleAction::Finish
    ));
    assert!(walk.is_exhausted());
    let mut walk = RadioCircle::new(false).into_walk(vec![recording("s1")]);
    assert!(matches!(
        walk.step(CircleEvent::Artists(vec![artist("alice")]), &mut rng),
        CircleAction::Finish
    ));
    assert!(walk.is_exhausted());
    let mut walk = RadioCircle::new(false).into_walk(vec![recording("s1")]);
    assert!(matches!(walk.step(CircleEvent::Next, &mut rng), CircleAction::FetchArtists(_)));
    assert!(matches!(
        walk.step(CircleEvent::Artists(vec![artist("alice")]), &mut rng),
        CircleAction::FetchRecordings(_)
    ));
    assert!(matches!(walk.step(CircleEvent::Next, &mut rng), CircleAction::Finish));
    assert!(walk.is_exhausted());
}

#[test]
fn asking_again_draws_again() {
    let mut rng = StdRng::seed_from_u64(7);
    let mut walk = RadioCircle::new(false).into_walk(vec![recording("s1")]);
    assert!(matches!(walk.step(CircleEvent::Next, &mut rng), CircleAction::FetchArtists(_)));
    assert!(matches!(walk.step(CircleEvent::Next, &mut rng), CircleAction::FetchArtists(_)));
    assert!(!walk.is_exhausted());
}

#[test]
fn picks_are_shuffled() {
    // Ten artists, none excluded: were the list left as it is, the first would always win.
    let circle = RadioCircle::new(false);
    let names: Vec<String> = (0..10).map(|i| format!("artist {i}")).collect();
    let mut winners = Vec::new();
    for seed in 0..40 {
        let mut rng = StdRng::seed_from_u64(seed);
        let artists: Vec<Artist> = names.iter().map(|n| artist(n)).collect();
        let picked = circle.get_random_artist_from_credits(artists, &mut rng).unwrap();
        assert!(names.contains(&picked.mbid));
        if !winners.contains(&picked.mbid) {
            winners.push(picked.mbid);
        }
    }
    assert!(winners.len() > 3);
    assert!(winners.iter().any(|w| w != "artist 0"));
}

#[test]
fn picks_skip_what_is_excluded() {
    let mut circle = RadioCircle::new(false);
    circle.blacklist_artist("alice".to_string());
    circle.blacklist_recording("r1".to_string());
    circle.blacklist_recording("r2".to_string());
    for seed in 0..40 {
        let mut rng = StdRng::seed_from_u64(seed);
        let picked = circle
            .get_random_artist_from_credits(vec![artist("alice"), artist(UNKNOWN), artist("bob")], &mut rng)
            .unwrap();
        assert_eq!(picked.mbid, "bob");
        let picked = circle
            .get_random_recording_from_artist(
                vec![recording("r1"), recording("r3"), recording("r2")],
                &mut rng,
            )
            .unwrap();
        assert_eq!(picked.mbid, "r3");
        assert!(circle
            .get_random_recording_from_artist(vec![recording("r1"), recording("r2")], &mut rng)
            .is_none());
        assert!(circle.get_random_artist_from_credits(Vec::new(), &mut rng).is_none());
    }
}

#[test]
fn seed_recordings_are_drawn_at_random() {
    // Five seeds: were the draw constant, one recording would always be asked about.
    let seeds: Vec<Recording> = (0..5).map(|i| recording(&format!("s{i}"))).collect();
    let mut drawn = Vec::new();
    for seed in 0..40 {
        let mut rng = StdRng::seed_from_u64(seed);
        let mut walk = RadioCircle::new(false).into_walk(seeds.clone());
        match walk.step(CircleEvent::Next, &mut rng) {
            CircleAction::FetchArtists(of) => {
                if !drawn.contains(&of.mbid) {
                    drawn.push(of.mbid);
                }
            }
            _ => panic!("a seed recording should have been drawn"),
        }
    }
    assert!(drawn.len() >= 3);
}

#[test]
fn circle_playlist_names_the_radio() {
    let mix = create_radio_mix(Vec::new(), false, RadioCollector::new(Some(1), None));
    assert!(!mix.done());
    assert_eq!(mix.len(), 0);
    let playlist = mix.into_playlist("someone".to_string());
    assert_eq!(playlist.title, "Radio: Circles");
    assert_eq!(
        playlist.description,
        "Automatically generated by: https://github.com/RustyNova016/listenbrainz-cli-tools"
    );
    assert_eq!(playlist.username, Some("someone".to_string()));
    assert!(!playlist.public);
    assert!(playlist.recordings.is_empty());
    let playlist = circles_playlist("someone".to_string(), vec![recording("a1")]);
    assert_eq!(playlist.title, "Radio: Circles");
    assert_eq!(playlist.recordings, vec![recording("a1")]);
}
