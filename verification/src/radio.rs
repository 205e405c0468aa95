//! The radios: whole pipelines from a seed to a playlist.

use rand::rngs::StdRng;
use vstd::prelude::*;
use vstd::string::StringExecFns;
use crate::aggregate::{RecordingWithListens, RecordingWithListensCollection};
use crate::circles::{
    unknown_artist, various_artists, walk_step, CircleAction, CircleEvent,
    CircleState, CircleWalk, RadioCircle,
};
use crate::clock::unix_now;
use crate::collector::RadioCollector;
use crate::entity::{ids_contain, Artist, Recording};
use crate::filters::cooldown::{cooldown_filter, keeps_out_of_cooldown, out_of_cooldown};
use crate::filters::min_listens::{keeps_min_listens, min_listen_filter};
use crate::filters::timeouts::{keeps_not_timed_out, timeout_filter, Timeout, TimeoutRegistry};
use crate::ranking::is_stable_ranking;
use crate::sequence::reversed;
use crate::sorters::listen_rate::{listen_rate_sorter, listen_rates, DEFAULT_FALLBACK_SPAN};
use crate::sorters::overdue::{
    cumulative_ranking, factors, overdue_factor_sorter, overdue_factor_sorter_cumulative,
    overdue_sorter, overdues, DEFAULT_FALLBACK_INTERVAL,
};
use crate::text::{decimal, decimal_string, joined};

verus! {

/// Listens that a recording needs to enter a radio where the caller names no
/// minimum.
pub const DEFAULT_MIN_LISTENS: u64 = 3;

/// A playlist ready to be handed to a playlist service.
#[derive(Debug)]
pub struct PlaylistStub {
    /// Title shown by the service.
    pub title: String,
    /// Description shown by the service.
    pub description: String,
    /// Name of the user who owns the playlist.
    pub username: Option<String>,
    /// Whether others may see the playlist.
    pub public: bool,
    /// The recordings, in playing order.
    pub recordings: Vec<Recording>,
}

/// The address under which the catalog shows the recording `mbid`.
pub open spec fn recording_uri(mbid: Seq<char>) -> Seq<char> {
    "https://musicbrainz.org/recording/"@ + mbid
}

impl PlaylistStub {
    /// The catalog addresses of the recordings, in playing order; playlist
    /// services name tracks by them.
    pub fn track_identifiers(&self) -> (uris: Vec<String>)
        ensures
            uris@.len() == self.recordings@.len(),
            forall|k: int|
                0 <= k < uris@.len() ==> (#[trigger] uris@[k])@ == recording_uri(
                    self.recordings@[k].mbid@,
                ),
    {
        let mut uris: Vec<String> = Vec::new();
        let mut i: usize = 0;
        while i < self.recordings.len()
            invariant
                i <= self.recordings.len(),
                uris@.len() == i,
                forall|k: int|
                    0 <= k < i ==> (#[trigger] uris@[k])@ == recording_uri(self.recordings@[k].mbid@),
            decreases self.recordings.len() - i,
        {
            uris.push(joined("https://musicbrainz.org/recording/", self.recordings[i].mbid.as_str()));
            i += 1;
        }
        uris
    }
}

/// The minimum in force: the one named, or [`DEFAULT_MIN_LISTENS`].
pub open spec fn minimum_in_force(min_listens: Option<u64>) -> u64 {
    match min_listens {
        Some(minimum) => minimum,
        None => DEFAULT_MIN_LISTENS,
    }
}

/// A cooldown of `hours` in seconds, held at the greatest number of seconds
/// that can be expressed.
pub open spec fn cooldown_seconds(hours: u64) -> u64 {
    if hours * 3600 > u64::MAX {
        u64::MAX
    } else {
        (hours * 3600) as u64
    }
}

/// Holding the seconds of a cooldown at the greatest number does not change
/// what is out of cooldown: it is so exactly when more than `hours` full
/// hours have passed since the latest listen.
pub proof fn lemma_cooldown_in_hours(latest: Option<i64>, hours: u64, now: i64)
    ensures
        out_of_cooldown(latest, cooldown_seconds(hours), now) <==> (latest matches Some(at) ==> now
            - at > hours * 3600),
{
}

/// The recordings of `entries` that may enter a radio at `now`: those with at
/// least `minimum` listens, out of a cooldown of `cooldown` seconds, and not
/// held back by `timeouts`; in the order of `entries`.
pub open spec fn radio_candidates(
    entries: Seq<RecordingWithListens>,
    minimum: u64,
    cooldown: u64,
    timeouts: Seq<Timeout>,
    now: i64,
) -> Seq<RecordingWithListens> {
    entries.filter(keeps_min_listens(minimum)).filter(keeps_out_of_cooldown(cooldown, now)).filter(
        keeps_not_timed_out(timeouts, now),
    )
}

/// The recordings of `ranked`, without their listens.
pub open spec fn recordings_of(ranked: Seq<RecordingWithListens>) -> Seq<Recording> {
    ranked.map_values(|r: RecordingWithListens| r.entity)
}

/// Strips the listens and keeps the recordings, in order.
pub fn into_recordings(ranked: Vec<RecordingWithListens>) -> (recordings: Vec<Recording>)
    ensures
        recordings@ == recordings_of(ranked@),
{
    let ghost all = ranked@;
    let ghost n = all.len() as int;
    let mut rest = reversed(ranked);
    let mut recordings: Vec<Recording> = Vec::new();
    while rest.len() > 0
        invariant
            n == all.len(),
            rest@.len() + recordings@.len() == n,
            forall|k: int| 0 <= k < rest@.len() ==> #[trigger] rest@[k] == all[n - 1 - k],
            forall|k: int| 0 <= k < recordings@.len() ==> #[trigger] recordings@[k] == all[k].entity,
        decreases rest.len(),
    {
        let item = rest.pop().unwrap();
        assert(item == all[recordings@.len() as int]);
        recordings.push(item.into_entity());
    }
    assert(recordings@ =~= recordings_of(all));
    recordings
}

/// Narrows the seed to the recordings that may enter a radio at `now`.
fn candidates(
    seed: RecordingWithListensCollection,
    min_listens: Option<u64>,
    cooldown: u64,
    timeouts: &TimeoutRegistry,
    now: i64,
) -> (kept: Vec<RecordingWithListens>)
    ensures
        kept@ == radio_candidates(
            seed.entries(),
            minimum_in_force(min_listens),
            cooldown_seconds(cooldown),
            timeouts@,
            now,
        ),
{
    let minimum = match min_listens {
        Some(minimum) => minimum,
        None => DEFAULT_MIN_LISTENS,
    };
    let seconds: u64 = if cooldown > u64::MAX / 3600 {
        u64::MAX
    } else {
        cooldown * 3600
    };
    let recordings = min_listen_filter(seed.into_vec(), minimum);
    let recordings = cooldown_filter(recordings, seconds, now);
    timeout_filter(recordings, timeouts, now)
}

/// How the overdue radio ranks its candidates: by time since the latest
/// listen; with `overdue_factor`, by overdue factor instead; with
/// `at_listening_time` as well, by overdue factor at the moment at which each
/// recording would start to play.
pub open spec fn overdue_ranking(
    candidates: Seq<RecordingWithListens>,
    overdue_factor: bool,
    at_listening_time: bool,
    now: i64,
    ranked: Seq<RecordingWithListens>,
) -> bool {
    if !overdue_factor {
        is_stable_ranking(candidates, overdues(candidates, now), ranked)
    } else if !at_listening_time {
        is_stable_ranking(candidates, factors(candidates, now, DEFAULT_FALLBACK_INTERVAL), ranked)
    } else {
        ranked == cumulative_ranking(candidates, now, DEFAULT_FALLBACK_INTERVAL)
    }
}

/// The overdue radio at the moment `now`: the recordings of the seed that
/// were heard often enough, not too recently, and are not held back, ranked
/// by how overdue they are and cut to the collector's budget.
///
/// `cooldown` is in hours. `playlist_number` numbers the playlist in its
/// title.
pub fn overdue_radio_at(
    seed: RecordingWithListensCollection,
    username: String,
    min_listens: Option<u64>,
    cooldown: u64,
    overdue_factor: bool,
    collector: RadioCollector,
    at_listening_time: bool,
    timeouts: &TimeoutRegistry,
    playlist_number: u64,
    now: i64,
) -> (playlist: PlaylistStub)
    ensures
        playlist.title@ == "Radio: Overdue listens #"@ + decimal(playlist_number as nat),
        playlist.description@
            == "Automatically generated by: https://github.com/RustyNova016/Alistral"@,
        playlist.username == Some(username),
        playlist.public,
        exists|ranked: Seq<RecordingWithListens>|
            {
                &&& #[trigger] overdue_ranking(
                    radio_candidates(
                        seed.entries(),
                        minimum_in_force(min_listens),
                        cooldown_seconds(cooldown),
                        timeouts@,
                        now,
                    ),
                    overdue_factor,
                    at_listening_time,
                    now,
                    ranked,
                )
                &&& collector.collects(recordings_of(ranked), playlist.recordings@)
            },
{
    let recordings = candidates(seed, min_listens, cooldown, timeouts, now);
    let ghost kept = recordings@;
    let ranked = if !overdue_factor {
        overdue_sorter(recordings, now)
    } else if !at_listening_time {
        overdue_factor_sorter(recordings, now)
    } else {
        overdue_factor_sorter_cumulative(recordings, now)
    };
    let ghost order = ranked@;
    assert(overdue_ranking(kept, overdue_factor, at_listening_time, now, order));
    let collected = collector.collect(into_recordings(ranked));
    let mut title = String::from_str("Radio: Overdue listens #");
    title.append(decimal_string(playlist_number).as_str());
    let playlist = PlaylistStub {
        title,
        description: String::from_str(
            "Automatically generated by: https://github.com/RustyNova016/Alistral",
        ),
        username: Some(username),
        public: true,
        recordings: collected,
    };
    assert(collector.collects(recordings_of(order), playlist.recordings@));
    playlist
}

/// The overdue radio at the present moment; see [`overdue_radio_at`].
pub fn overdue_radio(
    seed: RecordingWithListensCollection,
    username: String,
    min_listens: Option<u64>,
    cooldown: u64,
    overdue_factor: bool,
    collector: RadioCollector,
    at_listening_time: bool,
    timeouts: &TimeoutRegistry,
    playlist_number: u64,
) -> (playlist: PlaylistStub)
    ensures
        playlist.title@ == "Radio: Overdue listens #"@ + decimal(playlist_number as nat),
        playlist.description@
            == "Automatically generated by: https://github.com/RustyNova016/Alistral"@,
        playlist.username == Some(username),
        playlist.public,
        exists|now: i64, ranked: Seq<RecordingWithListens>|
            {
                &&& #[trigger] overdue_ranking(
                    radio_candidates(
                        seed.entries(),
                        minimum_in_force(min_listens),
                        cooldown_seconds(cooldown),
                        timeouts@,
                        now,
                    ),
                    overdue_factor,
                    at_listening_time,
                    now,
                    ranked,
                )
                &&& collector.collects(recordings_of(ranked), playlist.recordings@)
            },
{
    let now = unix_now();
    overdue_radio_at(
        seed,
        username,
        min_listens,
        cooldown,
        overdue_factor,
        collector,
        at_listening_time,
        timeouts,
        playlist_number,
        now,
    )
}

/// How the listen-rate radio ranks its candidates: by listen rate, highest
/// first, equal rates in their order.
pub open spec fn listen_rate_ranking(
    candidates: Seq<RecordingWithListens>,
    ranked: Seq<RecordingWithListens>,
) -> bool {
    is_stable_ranking(candidates, listen_rates(candidates, DEFAULT_FALLBACK_SPAN), ranked)
}

/// The listen-rate radio at the moment `now`: the recordings of the seed that
/// were heard often enough, not too recently, and are not held back, ranked
/// by listen rate and cut to the collector's budget.
///
/// `cooldown` is in hours. `playlist_number` numbers the playlist in its
/// title.
pub fn listen_rate_radio_at(
    seed: RecordingWithListensCollection,
    username: String,
    min_listens: Option<u64>,
    cooldown: u64,
    collector: RadioCollector,
    timeouts: &TimeoutRegistry,
    playlist_number: u64,
    now: i64,
) -> (playlist: PlaylistStub)
    ensures
        playlist.title@ == "Radio: Listen Rate #"@ + decimal(playlist_number as nat),
        playlist.description@
            == "Automatically generated by: https://github.com/RustyNova016/Alistral"@,
        playlist.username == Some(username),
        playlist.public,
        exists|ranked: Seq<RecordingWithListens>|
            {
                &&& #[trigger] listen_rate_ranking(
                    radio_candidates(
                        seed.entries(),
                        minimum_in_force(min_listens),
                        cooldown_seconds(cooldown),
                        timeouts@,
                        now,
                    ),
                    ranked,
                )
                &&& collector.collects(recordings_of(ranked), playlist.recordings@)
            },
{
    let recordings = candidates(seed, min_listens, cooldown, timeouts, now);
    let ghost kept = recordings@;
    let ranked = listen_rate_sorter(recordings);
    let ghost order = ranked@;
    assert(listen_rate_ranking(kept, order));
    let collected = collector.collect(into_recordings(ranked));
    let mut title = String::from_str("Radio: Listen Rate #");
    title.append(decimal_string(playlist_number).as_str());
    let playlist = PlaylistStub {
        title,
        description: String::from_str(
            "Automatically generated by: https://github.com/RustyNova016/Alistral",
        ),
        username: Some(username),
        public: true,
        recordings: collected,
    };
    assert(collector.collects(recordings_of(order), playlist.recordings@));
    playlist
}

/// The listen-rate radio at the present moment; see
/// [`listen_rate_radio_at`].
pub fn listen_rate_radio(
    seed: RecordingWithListensCollection,
    username: String,
    min_listens: Option<u64>,
    cooldown: u64,
    collector: RadioCollector,
    timeouts: &TimeoutRegistry,
    playlist_number: u64,
) -> (playlist: PlaylistStub)
    ensures
        playlist.title@ == "Radio: Listen Rate #"@ + decimal(playlist_number as nat),
        playlist.description@
            == "Automatically generated by: https://github.com/RustyNova016/Alistral"@,
        playlist.username == Some(username),
        playlist.public,
        exists|now: i64, ranked: Seq<RecordingWithListens>|
            {
                &&& #[trigger] listen_rate_ranking(
                    radio_candidates(
                        seed.entries(),
                        minimum_in_force(min_listens),
                        cooldown_seconds(cooldown),
                        timeouts@,
                        now,
                    ),
                    ranked,
                )
                &&& collector.collects(recordings_of(ranked), playlist.recordings@)
            },
{
    let now = unix_now();
    listen_rate_radio_at(seed, username, min_listens, cooldown, collector, timeouts, playlist_number, now)
}

/// What a circle radio in the making asks of the caller.
#[derive(Debug)]
pub enum MixAction {
    /// Look up the artists credited on this recording and report them.
    FetchArtists(Recording),
    /// Look up all recordings of this artist and report them.
    FetchRecordings(Artist),
    /// The radio is complete: nothing more is wanted.
    Done,
}

/// A circle radio in the making: a walk, the budget, and what has been
/// collected so far.
///
/// The caller starts it with [`CircleEvent::Next`], performs each lookup that
/// is asked for and reports its result, until [`MixAction::Done`].
#[derive(Debug)]
pub struct RadioMix {
    walk: CircleWalk,
    collector: RadioCollector,
    collected: Vec<Recording>,
    done: bool,
}

impl RadioMix {
    /// The walk that feeds the radio.
    pub closed spec fn walk(&self) -> CircleWalk {
        self.walk
    }

    /// The budget of the radio.
    pub closed spec fn collector(&self) -> RadioCollector {
        self.collector
    }

    /// The recordings collected so far, in playing order.
    pub closed spec fn collected(&self) -> Seq<Recording> {
        self.collected@
    }

    /// Whether the radio is complete.
    pub closed spec fn is_done(&self) -> bool {
        self.done
    }

    /// Whether as many recordings are collected as the count allows.
    pub open spec fn is_full(&self) -> bool {
        self.collector().count matches Some(most) && self.collected().len() >= most
    }

    /// The invariant of the type: the walk is well formed; what is collected
    /// fits the budget, is excluded from the walk and holds no recording
    /// twice; and in unlistened mode nothing collected is a seed recording.
    pub open spec fn well_formed(&self) -> bool {
        &&& self.walk().well_formed()
        &&& self.collector().within_budget(self.collected())
        &&& forall|k: int|
            0 <= k < self.collected().len() ==> ids_contain(
                self.walk().recording_blacklist(),
                (#[trigger] self.collected()[k]).mbid@,
            )
        &&& forall|j: int, k: int|
            0 <= j < k < self.collected().len() ==> (#[trigger] self.collected()[j]).mbid@
                != (#[trigger] self.collected()[k]).mbid@
        &&& self.walk().unlistened() ==> forall|k: int, i: int|
            0 <= k < self.collected().len() && 0 <= i < self.walk().seeds().len() ==> (
            #[trigger] self.collected()[k]).mbid@ != (#[trigger] self.walk().seeds()[i]).mbid@
    }

    /// Tests whether the radio is complete.
    pub fn done(&self) -> (done: bool)
        ensures
            done == self.is_done(),
    {
        self.done
    }

    /// Number of recordings collected so far.
    pub fn len(&self) -> (count: usize)
        ensures
            count == self.collected().len(),
    {
        self.collected.len()
    }

    /// Takes the radio one report further and says what is wanted next; see
    /// [`mix_step`].
    ///
    /// A recording that the walk emits is collected where it fits the budget,
    /// and the next one is asked for unless the count is reached. The first
    /// recording that does not fit completes the radio, as does the end of
    /// the walk.
    pub fn advance(&mut self, event: CircleEvent, rng: &mut StdRng) -> (action: MixAction)
        requires
            old(self).well_formed(),
        ensures
            final(self).well_formed(),
            final(self).collector() == old(self).collector(),
            final(self).walk().seeds() == old(self).walk().seeds(),
            final(self).walk().unlistened() == old(self).walk().unlistened(),
            mix_step(*old(self), event, *final(self), action),
            action is Done <==> final(self).is_done(),
            action matches MixAction::FetchRecordings(artist) ==> artist.mbid@ != unknown_artist()
                && artist.mbid@ != various_artists(),
    {
        if self.done {
            return MixAction::Done;
        }
        if self.collector.is_full(&self.collected) {
            self.done = true;
            return MixAction::Done;
        }
        let ghost start = self.walk;
        let first = self.walk.step(event, rng);
        let ghost mid = self.walk;
        let ghost before = self.collected@;
        proof {
            assert forall|k: int| 0 <= k < before.len() implies ids_contain(
                mid.recording_blacklist(),
                (#[trigger] before[k]).mbid@,
            ) by {
                lemma_walk_step_keeps_exclusions(start, event, mid, first, before[k].mbid@);
            }
        }
        let action = match first {
            CircleAction::FetchArtists(seed) => MixAction::FetchArtists(seed),
            CircleAction::FetchRecordings(artist) => MixAction::FetchRecordings(artist),
            CircleAction::Finish => {
                self.done = true;
                MixAction::Done
            },
            CircleAction::Emit(recording) => {
                if self.collector.accepts(&self.collected, &recording) {
                    self.collected.push(recording);
                    if self.collector.is_full(&self.collected) {
                        self.done = true;
                        MixAction::Done
                    } else {
                        let second = self.walk.step(CircleEvent::Next, rng);
                        proof {
                            assert(walk_step(mid, CircleEvent::Next, self.walk, second));
                            assert forall|k: int| 0 <= k < self.collected@.len() implies ids_contain(
                                self.walk.recording_blacklist(),
                                (#[trigger] self.collected@[k]).mbid@,
                            ) by {
                                if k < before.len() {
                                    assert(self.collected@[k] == before[k]);
                                }
                                lemma_walk_step_keeps_exclusions(
                                    mid,
                                    CircleEvent::Next,
                                    self.walk,
                                    second,
                                    self.collected@[k].mbid@,
                                );
                            }
                        }
                        let ghost seen = second;
                        let next = match second {
                            CircleAction::FetchArtists(seed) => MixAction::FetchArtists(seed),
                            _ => {
                                self.done = true;
                                MixAction::Done
                            },
                        };
                        proof {
                            assert(walk_step(mid, CircleEvent::Next, self.walk(), seen) && (
                            match seen {
                                CircleAction::FetchArtists(seed) => next == MixAction::FetchArtists(
                                    seed,
                                ) && !self.is_done(),
                                _ => next is Done && self.is_done(),
                            }));
                            assert(mix_follows(*old(self), mid, first, *self, next));
                        }
                        next
                    }
                } else {
                    self.done = true;
                    MixAction::Done
                }
            },
        };
        proof {
            assert(walk_step(start, event, mid, first));
            assert(mix_follows(*old(self), mid, first, *self, action));
        }
        action
    }

    /// The recordings collected so far, in playing order.
    pub fn recordings(&self) -> (collected: &Vec<Recording>)
        ensures
            collected@ == self.collected(),
    {
        &self.collected
    }

    /// Ends the making and gives the playlist of what was collected; see
    /// [`circles_playlist`].
    pub fn into_playlist(self, username: String) -> (playlist: PlaylistStub)
        ensures
            playlist.title@ == "Radio: Circles"@,
            playlist.description@
                == "Automatically generated by: https://github.com/RustyNova016/listenbrainz-cli-tools"@,
            playlist.username == Some(username),
            !playlist.public,
            playlist.recordings@ == self.collected(),
    {
        circles_playlist(username, self.collected)
    }
}

/// The playlist of a circle radio that collected `recordings` for the user
/// `username`.
pub fn circles_playlist(username: String, recordings: Vec<Recording>) -> (playlist: PlaylistStub)
    ensures
        playlist.title@ == "Radio: Circles"@,
        playlist.description@
            == "Automatically generated by: https://github.com/RustyNova016/listenbrainz-cli-tools"@,
        playlist.username == Some(username),
        !playlist.public,
        playlist.recordings == recordings,
{
    PlaylistStub {
        title: String::from_str("Radio: Circles"),
        description: String::from_str(
            "Automatically generated by: https://github.com/RustyNova016/listenbrainz-cli-tools",
        ),
        username: Some(username),
        public: false,
        recordings,
    }
}

/// A step of the walk lifts no exclusion of a recording.
pub proof fn lemma_walk_step_keeps_exclusions(
    before: CircleWalk,
    event: CircleEvent,
    after: CircleWalk,
    action: CircleAction,
    mbid: Seq<char>,
)
    requires
        walk_step(before, event, after, action),
        ids_contain(before.recording_blacklist(), mbid),
    ensures
        ids_contain(after.recording_blacklist(), mbid),
{
    let old_list = before.recording_blacklist();
    let new_list = after.recording_blacklist();
    if new_list != old_list {
        assert(new_list.drop_last() == old_list);
        let i = choose|i: int| 0 <= i < old_list.len() && #[trigger] old_list[i]@ == mbid;
        assert(new_list[i] == new_list.drop_last()[i]);
    }
}

/// The decision table of [`RadioMix::advance`]: how the radio `after` and the
/// `action` relate to the radio `before` and the `event`.
///
/// A radio that is complete or full stays as it is. Otherwise the walk takes
/// a step, and [`mix_follows`] says what the radio makes of it.
pub open spec fn mix_step(
    before: RadioMix,
    event: CircleEvent,
    after: RadioMix,
    action: MixAction,
) -> bool {
    if before.is_done() || before.is_full() {
        &&& action is Done
        &&& after.is_done()
        &&& after.walk() == before.walk()
        &&& after.collected() == before.collected()
    } else {
        exists|mid: CircleWalk, first: CircleAction|
            #[trigger] walk_step(before.walk(), event, mid, first) && mix_follows(
                before,
                mid,
                first,
                after,
                action,
            )
    }
}

/// What the radio makes of a step of its walk that led to the walk `mid` and
/// the action `first`.
pub open spec fn mix_follows(
    before: RadioMix,
    mid: CircleWalk,
    first: CircleAction,
    after: RadioMix,
    action: MixAction,
) -> bool {
    match first {
        CircleAction::FetchArtists(seed) => {
            &&& action == MixAction::FetchArtists(seed)
            &&& !after.is_done()
            &&& after.walk() == mid
            &&& after.collected() == before.collected()
        },
        CircleAction::FetchRecordings(artist) => {
            &&& action == MixAction::FetchRecordings(artist)
            &&& !after.is_done()
            &&& after.walk() == mid
            &&& after.collected() == before.collected()
        },
        CircleAction::Finish => {
            &&& action is Done
            &&& after.is_done()
            &&& after.walk() == mid
            &&& after.collected() == before.collected()
        },
        CircleAction::Emit(recording) => {
            if !before.collector().within_budget(before.collected().push(recording)) {
                &&& action is Done
                &&& after.is_done()
                &&& after.walk() == mid
                &&& after.collected() == before.collected()
            } else if after.is_full() {
                &&& action is Done
                &&& after.is_done()
                &&& after.walk() == mid
                &&& after.collected() == before.collected().push(recording)
            } else {
                &&& after.collected() == before.collected().push(recording)
                &&& exists|second: CircleAction|
                    #[trigger] walk_step(mid, CircleEvent::Next, after.walk(), second) && (
                    match second {
                        CircleAction::FetchArtists(seed) => action == MixAction::FetchArtists(seed)
                            && !after.is_done(),
                        _ => action is Done && after.is_done(),
                    })
            }
        },
    }
}

/// Begins a circle radio from the seed `recordings`, to be cut to the budget
/// of `collector`. In `unlistened` mode the radio holds no seed recording.
pub fn create_radio_mix(recordings: Vec<Recording>, unlistened: bool, collector: RadioCollector) -> (mix:
    RadioMix)
    ensures
        mix.well_formed(),
        !mix.is_done(),
        mix.collector() == collector,
        mix.collected().len() == 0,
        mix.walk().seeds() == recordings@,
        mix.walk().unlistened() == unlistened,
        mix.walk().state() == CircleState::Start,
{
    let walk = RadioCircle::new(unlistened).into_walk(recordings);
    RadioMix { walk, collector, collected: Vec::new(), done: false }
}

} // verus!
