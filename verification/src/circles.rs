//! The circle radio: a random walk from recordings to the artists credited on
//! them and on to other recordings of those artists.
//!
//! The walk itself never looks anything up. It says what it needs next, the
//! caller fetches it and reports back, and the walk decides again.

use rand::rngs::StdRng;
use vstd::prelude::*;
use vstd::string::StringExecFns;
use crate::entity::{contains_id, ids_contain, Artist, HasMbid, Recording};
use crate::random::{random_below, shuffle};

verus! {

/// Identifier of the catalog's stand-in artist for unknown authorship.
pub open spec fn unknown_artist() -> Seq<char> {
    "125ec42a-7229-4250-afc5-e057484327fe"@
}

/// Identifier of the catalog's stand-in artist for compilations.
pub open spec fn various_artists() -> Seq<char> {
    "89ad4ac3-39f7-470e-963a-56509c546377"@
}

/// Whether every entity of `items` has its identifier among `blacklist`.
pub open spec fn all_blacklisted<E: HasMbid>(items: Seq<E>, blacklist: Seq<String>) -> bool {
    forall|i: int| 0 <= i < items.len() ==> ids_contain(blacklist, (#[trigger] items[i]).mbid())
}

/// Shuffles `items` and takes the first whose identifier is not among
/// `blacklist`.
///
/// Whatever the shuffle does, the entity taken is one of `items` and is not
/// blacklisted, and none is taken only where all are blacklisted.
pub fn first_allowed<E: HasMbid>(items: Vec<E>, blacklist: &Vec<String>, rng: &mut StdRng) -> (picked:
    Option<E>)
    ensures
        picked matches Some(entity) ==> items@.contains(entity) && !ids_contain(
            blacklist@,
            entity.mbid(),
        ),
        picked is None <==> all_blacklisted(items@, blacklist@),
{
    let mut shuffled = items;
    shuffle(&mut shuffled, rng);
    proof {
        shuffled@.to_multiset_ensures();
        items@.to_multiset_ensures();
        assert forall|e: E| shuffled@.contains(e) <==> items@.contains(e) by {
            assert(shuffled@.to_multiset().count(e) == items@.to_multiset().count(e));
        }
    }
    let mut i: usize = 0;
    while i < shuffled.len()
        invariant
            i <= shuffled.len(),
            forall|k: int| 0 <= k < i ==> ids_contain(blacklist@, (#[trigger] shuffled@[k]).mbid()),
            forall|e: E| shuffled@.contains(e) <==> items@.contains(e),
        decreases shuffled.len() - i,
    {
        if !contains_id(blacklist, shuffled[i].get_mbid()) {
            let ghost found = shuffled@[i as int];
            assert(shuffled@.contains(found));
            let entity = shuffled.swap_remove(i);
            proof {
                if all_blacklisted(items@, blacklist@) {
                    let j = choose|j: int| 0 <= j < items@.len() && items@[j] == found;
                    assert(ids_contain(blacklist@, items@[j].mbid()));
                }
            }
            return Some(entity);
        }
        i += 1;
    }
    proof {
        assert forall|j: int| 0 <= j < items@.len() implies ids_contain(
            blacklist@,
            (#[trigger] items@[j]).mbid(),
        ) by {
            assert(items@.contains(items@[j]));
            let k = choose|k: int| 0 <= k < shuffled@.len() && shuffled@[k] == items@[j];
            assert(ids_contain(blacklist@, shuffled@[k].mbid()));
        }
    }
    None
}

/// The exclusions of a circle radio: artists and recordings that the walk
/// must not pick, and whether it may pick what the listener already knows.
#[derive(Debug)]
pub struct RadioCircle {
    unlistened: bool,
    artist_blacklist: Vec<String>,
    recording_blacklist: Vec<String>,
}

impl RadioCircle {
    /// Whether the walk surfaces only recordings outside the seed.
    pub closed spec fn unlistened(&self) -> bool {
        self.unlistened
    }

    /// Identifiers of the artists that must not be picked.
    pub closed spec fn artist_blacklist(&self) -> Seq<String> {
        self.artist_blacklist@
    }

    /// Identifiers of the recordings that must not be picked.
    pub closed spec fn recording_blacklist(&self) -> Seq<String> {
        self.recording_blacklist@
    }

    /// The invariant of the type: both stand-in artists are excluded.
    pub open spec fn well_formed(&self) -> bool {
        &&& ids_contain(self.artist_blacklist(), unknown_artist())
        &&& ids_contain(self.artist_blacklist(), various_artists())
    }

    /// Exclusions for a new radio: the two stand-in artists and no recording.
    pub fn new(unlistened: bool) -> (circle: Self)
        ensures
            circle.well_formed(),
            circle.unlistened() == unlistened,
            circle.artist_blacklist().len() == 2,
            circle.artist_blacklist()[0]@ == unknown_artist(),
            circle.artist_blacklist()[1]@ == various_artists(),
            circle.recording_blacklist().len() == 0,
    {
        let mut artist_blacklist: Vec<String> = Vec::new();
        artist_blacklist.push(String::from_str("125ec42a-7229-4250-afc5-e057484327fe"));
        artist_blacklist.push(String::from_str("89ad4ac3-39f7-470e-963a-56509c546377"));
        let circle = RadioCircle { unlistened, artist_blacklist, recording_blacklist: Vec::new() };
        assert(circle.artist_blacklist()[0]@ == unknown_artist());
        assert(circle.artist_blacklist()[1]@ == various_artists());
        circle
    }

    /// Whether only recordings outside the seed are surfaced.
    pub fn is_unlistened(&self) -> (unlistened: bool)
        ensures
            unlistened == self.unlistened(),
    {
        self.unlistened
    }

    /// Tests whether the artist `mbid` must not be picked.
    pub fn is_artist_blacklisted(&self, mbid: &String) -> (excluded: bool)
        ensures
            excluded == ids_contain(self.artist_blacklist(), mbid@),
    {
        contains_id(&self.artist_blacklist, mbid)
    }

    /// Tests whether the recording `mbid` must not be picked.
    pub fn is_recording_blacklisted(&self, mbid: &String) -> (excluded: bool)
        ensures
            excluded == ids_contain(self.recording_blacklist(), mbid@),
    {
        contains_id(&self.recording_blacklist, mbid)
    }

    /// Excludes the artist `mbid` from now on.
    pub fn blacklist_artist(&mut self, mbid: String)
        requires
            old(self).well_formed(),
        ensures
            final(self).well_formed(),
            final(self).unlistened() == old(self).unlistened(),
            final(self).artist_blacklist() == old(self).artist_blacklist().push(mbid),
            final(self).recording_blacklist() == old(self).recording_blacklist(),
    {
        let ghost before = self.artist_blacklist@;
        self.artist_blacklist.push(mbid);
        proof {
            lemma_push_keeps_ids(before, mbid, unknown_artist());
            lemma_push_keeps_ids(before, mbid, various_artists());
        }
    }

    /// Excludes the recording `mbid` from now on.
    pub fn blacklist_recording(&mut self, mbid: String)
        ensures
            final(self).well_formed() == old(self).well_formed(),
            final(self).unlistened() == old(self).unlistened(),
            final(self).artist_blacklist() == old(self).artist_blacklist(),
            final(self).recording_blacklist() == old(self).recording_blacklist().push(mbid),
    {
        self.recording_blacklist.push(mbid);
    }

    /// Picks, at random, an artist of `artists` that is not excluded.
    ///
    /// Whatever the dice, the artist picked is one of `artists`, is not
    /// excluded, and so is neither of the stand-in artists; none is picked
    /// only where all are excluded.
    pub fn get_random_artist_from_credits(&self, artists: Vec<Artist>, rng: &mut StdRng) -> (picked:
        Option<Artist>)
        requires
            self.well_formed(),
        ensures
            picked matches Some(artist) ==> {
                &&& artists@.contains(artist)
                &&& !ids_contain(self.artist_blacklist(), artist.mbid@)
                &&& artist.mbid@ != unknown_artist()
                &&& artist.mbid@ != various_artists()
            },
            picked is None <==> all_blacklisted(artists@, self.artist_blacklist()),
    {
        first_allowed(artists, &self.artist_blacklist, rng)
    }

    /// Picks, at random, a recording of `recordings` that is not excluded.
    ///
    /// Whatever the dice, the recording picked is one of `recordings` and is
    /// not excluded; none is picked only where all are excluded.
    pub fn get_random_recording_from_artist(
        &self,
        recordings: Vec<Recording>,
        rng: &mut StdRng,
    ) -> (picked: Option<Recording>)
        ensures
            picked matches Some(recording) ==> recordings@.contains(recording) && !ids_contain(
                self.recording_blacklist(),
                recording.mbid@,
            ),
            picked is None <==> all_blacklisted(recordings@, self.recording_blacklist()),
    {
        first_allowed(recordings, &self.recording_blacklist, rng)
    }

    /// Begins a walk from the seed `recordings`. In unlistened mode every
    /// seed recording is excluded before the first step.
    pub fn into_walk(self, recordings: Vec<Recording>) -> (walk: CircleWalk)
        requires
            self.well_formed(),
        ensures
            walk.well_formed(),
            walk.state() == CircleState::Start,
            walk.seeds() == recordings@,
            walk.unlistened() == self.unlistened(),
            walk.artist_blacklist() == self.artist_blacklist(),
            !self.unlistened() ==> walk.recording_blacklist() == self.recording_blacklist(),
            self.unlistened() ==> {
                &&& walk.recording_blacklist().len() == self.recording_blacklist().len()
                    + recordings@.len()
                &&& walk.recording_blacklist().take(self.recording_blacklist().len() as int)
                    == self.recording_blacklist()
                &&& forall|i: int|
                    0 <= i < recordings@.len() ==> (#[trigger] walk.recording_blacklist()[
                        self.recording_blacklist().len() + i
                    ])@ == recordings@[i].mbid@
            },
    {
        let mut circle = self;
        let ghost start = circle.recording_blacklist@;
        if circle.unlistened {
            let mut i: usize = 0;
            while i < recordings.len()
                invariant
                    i <= recordings.len(),
                    circle.unlistened == self.unlistened,
                    circle.artist_blacklist == self.artist_blacklist,
                    start == self.recording_blacklist@,
                    circle.recording_blacklist@.len() == start.len() + i,
                    circle.recording_blacklist@.take(start.len() as int) == start,
                    forall|k: int|
                        0 <= k < i ==> (#[trigger] circle.recording_blacklist@[start.len() + k])@
                            == recordings@[k].mbid@,
                decreases recordings.len() - i,
            {
                let ghost before = circle.recording_blacklist@;
                circle.recording_blacklist.push(recordings[i].mbid.clone());
                assert(circle.recording_blacklist@.take(start.len() as int) =~= before.take(
                    start.len() as int,
                ));
                i += 1;
            }
        }
        let walk = CircleWalk { circle, seeds: recordings, state: CircleState::Start };
        proof {
            if self.unlistened {
                assert forall|i: int| 0 <= i < recordings@.len() implies ids_contain(
                    walk.recording_blacklist(),
                    (#[trigger] walk.seeds()[i]).mbid@,
                ) by {
                    assert(walk.recording_blacklist()[start.len() + i]@ == recordings@[i].mbid@);
                }
            } else {
                assert(walk.recording_blacklist() == self.recording_blacklist());
            }
        }
        walk
    }
}

impl Default for RadioCircle {
    fn default() -> (circle: Self)
        ensures
            circle.well_formed(),
            !circle.unlistened(),
            circle.artist_blacklist().len() == 2,
            circle.artist_blacklist()[0]@ == unknown_artist(),
            circle.artist_blacklist()[1]@ == various_artists(),
            circle.recording_blacklist().len() == 0,
    {
        RadioCircle::new(false)
    }
}

/// An identifier found among `ids` is still found after one more is added.
pub proof fn lemma_push_keeps_ids(ids: Seq<String>, added: String, wanted: Seq<char>)
    ensures
        ids_contain(ids, wanted) ==> ids_contain(ids.push(added), wanted),
        ids_contain(ids.push(added), added@),
        ids_contain(ids.push(added), wanted) ==> ids_contain(ids, wanted) || wanted == added@,
{
    let longer = ids.push(added);
    if ids_contain(ids, wanted) {
        let i = choose|i: int| 0 <= i < ids.len() && #[trigger] ids[i]@ == wanted;
        assert(longer[i]@ == wanted);
    }
    assert(longer[ids.len() as int]@ == added@);
    if ids_contain(longer, wanted) {
        let i = choose|i: int| 0 <= i < longer.len() && #[trigger] longer[i]@ == wanted;
        if i < ids.len() {
            assert(ids[i]@ == wanted);
        }
    }
}

/// Where a walk stands.
#[derive(Debug)]
pub enum CircleState {
    /// The seed is there and nothing has been asked for yet.
    Start,
    /// An artist is to be picked: a seed recording is drawn when the next
    /// recording is wanted, and the artists credited on it are awaited.
    PickArtist,
    /// An artist has been picked; the recordings of that artist are awaited.
    PickRecording(Artist),
    /// The walk has ended and gives nothing more.
    Exhausted,
}

/// What the caller reports to a walk.
#[derive(Debug)]
pub enum CircleEvent {
    /// The next recording of the radio is wanted.
    Next,
    /// The artists credited on the recording that the walk asked about.
    Artists(Vec<Artist>),
    /// The recordings of the artist that the walk asked about.
    Recordings(Vec<Recording>),
}

/// What a walk asks of the caller.
#[derive(Debug)]
pub enum CircleAction {
    /// Look up the artists credited on this recording and report them.
    FetchArtists(Recording),
    /// Look up all recordings of this artist and report them.
    FetchRecordings(Artist),
    /// This recording is the next of the radio.
    Emit(Recording),
    /// The radio is over.
    Finish,
}

/// A circle walk in progress: the exclusions, the seed and where the walk
/// stands.
#[derive(Debug)]
pub struct CircleWalk {
    circle: RadioCircle,
    seeds: Vec<Recording>,
    state: CircleState,
}

impl CircleWalk {
    /// Whether only recordings outside the seed are surfaced.
    pub closed spec fn unlistened(&self) -> bool {
        self.circle.unlistened()
    }

    /// Identifiers of the artists that must not be picked.
    pub closed spec fn artist_blacklist(&self) -> Seq<String> {
        self.circle.artist_blacklist()
    }

    /// Identifiers of the recordings that must not be picked.
    pub closed spec fn recording_blacklist(&self) -> Seq<String> {
        self.circle.recording_blacklist()
    }

    /// The seed recordings.
    pub closed spec fn seeds(&self) -> Seq<Recording> {
        self.seeds@
    }

    /// Where the walk stands.
    pub closed spec fn state(&self) -> CircleState {
        self.state
    }

    /// The invariant of the type: both stand-in artists are excluded; in
    /// unlistened mode every seed recording is excluded; an artist whose
    /// recordings are awaited is not excluded; and a walk that awaits
    /// something has a seed.
    pub open spec fn well_formed(&self) -> bool {
        &&& ids_contain(self.artist_blacklist(), unknown_artist())
        &&& ids_contain(self.artist_blacklist(), various_artists())
        &&& self.unlistened() ==> all_blacklisted(self.seeds(), self.recording_blacklist())
        &&& self.state() matches CircleState::PickRecording(artist) ==> !ids_contain(
            self.artist_blacklist(),
            artist.mbid@,
        )
        &&& self.state() is PickArtist || self.state() is PickRecording ==> self.seeds().len() > 0
    }

    /// Whether the walk has ended.
    pub fn is_exhausted(&self) -> (over: bool)
        ensures
            over <==> self.state() is Exhausted,
    {
        match self.state {
            CircleState::Exhausted => true,
            _ => false,
        }
    }

    /// Tests whether the artist `mbid` must not be picked.
    pub fn is_artist_blacklisted(&self, mbid: &String) -> (excluded: bool)
        ensures
            excluded == ids_contain(self.artist_blacklist(), mbid@),
    {
        self.circle.is_artist_blacklisted(mbid)
    }

    /// Tests whether the recording `mbid` must not be picked.
    pub fn is_recording_blacklisted(&self, mbid: &String) -> (excluded: bool)
        ensures
            excluded == ids_contain(self.recording_blacklist(), mbid@),
    {
        self.circle.is_recording_blacklisted(mbid)
    }

    /// Draws a seed recording at random and asks for its artists; ends the
    /// walk where there is no seed.
    fn draw_seed(&mut self, rng: &mut StdRng) -> (action: CircleAction)
        requires
            old(self).well_formed(),
            !(old(self).state() is PickRecording),
        ensures
            final(self).well_formed(),
            final(self).seeds() == old(self).seeds(),
            final(self).unlistened() == old(self).unlistened(),
            final(self).artist_blacklist() == old(self).artist_blacklist(),
            final(self).recording_blacklist() == old(self).recording_blacklist(),
            old(self).seeds().len() == 0 ==> action is Finish && final(self).state() is Exhausted,
            old(self).seeds().len() > 0 ==> final(self).state() is PickArtist && (
            action matches CircleAction::FetchArtists(seed) && old(self).seeds().contains(seed)),
    {
        if self.seeds.len() == 0 {
            self.state = CircleState::Exhausted;
            CircleAction::Finish
        } else {
            let index = random_below(rng, self.seeds.len());
            let seed = self.seeds[index].clone();
            assert(self.seeds@[index as int] == seed);
            self.state = CircleState::PickArtist;
            CircleAction::FetchArtists(seed)
        }
    }

    /// Takes the walk one decision further.
    ///
    /// - At the start and after each recording, [`CircleEvent::Next`] draws a
    ///   recording from the seed and asks for its artists, and an artist is
    ///   to be picked; without a seed the walk ends.
    /// - With the artists reported, one that is not excluded is picked and
    ///   its recordings are asked for; where all are excluded the walk ends.
    /// - With the recordings reported, one that is not excluded is emitted
    ///   and excluded from then on, and an artist is to be picked again;
    ///   where all are excluded, the artist is excluded and a new seed
    ///   recording is drawn.
    /// - A report that was not asked for ends the walk.
    ///
    /// Neither stand-in artist is ever picked, no recording is emitted twice,
    /// and in unlistened mode no seed recording is emitted.
    pub fn step(&mut self, event: CircleEvent, rng: &mut StdRng) -> (action: CircleAction)
        requires
            old(self).well_formed(),
        ensures
            final(self).well_formed(),
            final(self).seeds() == old(self).seeds(),
            final(self).unlistened() == old(self).unlistened(),
            walk_step(*old(self), event, *final(self), action),
            action matches CircleAction::FetchRecordings(artist) ==> artist.mbid@
                != unknown_artist() && artist.mbid@ != various_artists(),
            action matches CircleAction::Emit(recording) ==> {
                &&& !ids_contain(old(self).recording_blacklist(), recording.mbid@)
                &&& ids_contain(final(self).recording_blacklist(), recording.mbid@)
                &&& old(self).unlistened() ==> forall|i: int|
                    0 <= i < old(self).seeds().len() ==> (#[trigger] old(self).seeds()[i]).mbid@
                        != recording.mbid@
            },
    {
        let awaited: Option<Artist> = match &self.state {
            CircleState::PickRecording(artist) => Some(artist.clone()),
            _ => None,
        };
        let at_start = match &self.state {
            CircleState::Start => true,
            _ => false,
        };
        let at_pick_artist = match &self.state {
            CircleState::PickArtist => true,
            _ => false,
        };
        self.state = CircleState::Exhausted;
        match event {
            CircleEvent::Next => {
                if at_start || at_pick_artist {
                    self.draw_seed(rng)
                } else {
                    CircleAction::Finish
                }
            },
            CircleEvent::Artists(artists) => {
                if at_pick_artist {
                    match self.circle.get_random_artist_from_credits(artists, rng) {
                        Some(artist) => {
                            self.state = CircleState::PickRecording(artist.clone());
                            CircleAction::FetchRecordings(artist)
                        },
                        None => CircleAction::Finish,
                    }
                } else {
                    CircleAction::Finish
                }
            },
            CircleEvent::Recordings(recordings) => {
                match awaited {
                    Some(artist) => {
                        match self.circle.get_random_recording_from_artist(recordings, rng) {
                            Some(recording) => {
                                let ghost old_list = self.circle.recording_blacklist();
                                self.circle.blacklist_recording(recording.mbid.clone());
                                self.state = CircleState::PickArtist;
                                proof {
                                    assert(self.recording_blacklist().drop_last() =~= old_list);
                                    lemma_push_keeps_ids(old_list, recording.mbid, recording.mbid@);
                                    assert forall|i: int| 0 <= i < self.seeds().len() && ids_contain(
                                        old_list,
                                        (#[trigger] self.seeds()[i]).mbid@,
                                    ) implies ids_contain(
                                        self.recording_blacklist(),
                                        self.seeds()[i].mbid@,
                                    ) by {
                                        lemma_push_keeps_ids(
                                            old_list,
                                            recording.mbid,
                                            self.seeds()[i].mbid@,
                                        );
                                    }
                                }
                                CircleAction::Emit(recording)
                            },
                            None => {
                                let ghost old_list = self.circle.artist_blacklist();
                                self.circle.blacklist_artist(artist.mbid.clone());
                                assert(self.artist_blacklist().drop_last() =~= old_list);
                                self.draw_seed(rng)
                            },
                        }
                    },
                    None => CircleAction::Finish,
                }
            },
        }
    }
}

/// A failed attempt shrinks what is left to try: the artist that it excludes
/// was not excluded before, so a walk can fail no more often than there are
/// artists.
pub proof fn lemma_failed_attempt_excludes_anew(
    before: CircleWalk,
    event: CircleEvent,
    after: CircleWalk,
    action: CircleAction,
)
    requires
        before.well_formed(),
        walk_step(before, event, after, action),
        after.artist_blacklist() != before.artist_blacklist(),
    ensures
        after.artist_blacklist().len() == before.artist_blacklist().len() + 1,
        after.artist_blacklist().drop_last() == before.artist_blacklist(),
        !ids_contain(before.artist_blacklist(), after.artist_blacklist().last()@),
{
}

/// The decision table of [`CircleWalk::step`]: how the walk `after` and the
/// `action` relate to the walk `before` and the `event`.
pub open spec fn walk_step(
    before: CircleWalk,
    event: CircleEvent,
    after: CircleWalk,
    action: CircleAction,
) -> bool {
    match (before.state(), event) {
        (CircleState::Start, CircleEvent::Next) | (CircleState::PickArtist, CircleEvent::Next) => {
            &&& after.artist_blacklist() == before.artist_blacklist()
            &&& after.recording_blacklist() == before.recording_blacklist()
            &&& if before.seeds().len() == 0 {
                action is Finish && after.state() is Exhausted
            } else {
                &&& after.state() is PickArtist
                &&& action matches CircleAction::FetchArtists(seed)
                &&& before.seeds().contains(seed)
            }
        },
        (CircleState::PickArtist, CircleEvent::Artists(artists)) => {
            &&& after.artist_blacklist() == before.artist_blacklist()
            &&& after.recording_blacklist() == before.recording_blacklist()
            &&& if all_blacklisted(artists@, before.artist_blacklist()) {
                action is Finish && after.state() is Exhausted
            } else {
                &&& action matches CircleAction::FetchRecordings(artist)
                &&& artists@.contains(artist)
                &&& !ids_contain(before.artist_blacklist(), artist.mbid@)
                &&& after.state() == CircleState::PickRecording(artist)
            }
        },
        (CircleState::PickRecording(artist), CircleEvent::Recordings(recordings)) => {
            if all_blacklisted(recordings@, before.recording_blacklist()) {
                &&& after.artist_blacklist().len() == before.artist_blacklist().len() + 1
                &&& after.artist_blacklist().drop_last() == before.artist_blacklist()
                &&& after.artist_blacklist().last()@ == artist.mbid@
                &&& after.recording_blacklist() == before.recording_blacklist()
                &&& after.state() is PickArtist
                &&& action matches CircleAction::FetchArtists(seed)
                &&& before.seeds().contains(seed)
            } else {
                &&& after.artist_blacklist() == before.artist_blacklist()
                &&& action matches CircleAction::Emit(recording)
                &&& recordings@.contains(recording)
                &&& !ids_contain(before.recording_blacklist(), recording.mbid@)
                &&& after.recording_blacklist().len() == before.recording_blacklist().len() + 1
                &&& after.recording_blacklist().drop_last() == before.recording_blacklist()
                &&& after.recording_blacklist().last()@ == recording.mbid@
                &&& after.state() is PickArtist
            }
        },
        _ => {
            &&& after.artist_blacklist() == before.artist_blacklist()
            &&& after.recording_blacklist() == before.recording_blacklist()
            &&& action is Finish
            &&& after.state() is Exhausted
        },
    }
}

} // verus!
