//! Entities paired with the listens attributed to them, and keyed
//! collections of such pairs.

use vstd::prelude::*;
use crate::entity::{Artist, HasMbid, Recording, Work};
use crate::sequence::reversed;
use crate::listen::{
    earlier_of, later_of, latest_timestamp, lemma_extremes_of_concat, oldest_timestamp, Listen,
    ListenCollection,
};

verus! {

/// Mathematical value of an [`EntityWithListens`]: the entity and its listens
/// in order.
pub struct Aggregate<E> {
    pub entity: E,
    pub listens: Seq<Listen>,
}

/// One entity together with the listens attributed to it.
#[derive(Debug)]
pub struct EntityWithListens<E> {
    pub entity: E,
    pub listens: ListenCollection,
}

/// A recording and its listens.
pub type RecordingWithListens = EntityWithListens<Recording>;

/// An artist and the listens of the recordings credited to them.
pub type ArtistWithListens = EntityWithListens<Artist>;

/// A work and the listens of its recordings.
pub type WorkWithListens = EntityWithListens<Work>;

impl<E> View for EntityWithListens<E> {
    type V = Aggregate<E>;

    open spec fn view(&self) -> Aggregate<E> {
        Aggregate { entity: self.entity, listens: self.listens@ }
    }
}

impl<E> EntityWithListens<E> {
    /// Pairs `entity` with `listens`.
    pub fn new(entity: E, listens: ListenCollection) -> (pair: Self)
        ensures
            pair.entity == entity,
            pair.listens == listens,
    {
        EntityWithListens { entity, listens }
    }

    /// The entity.
    pub fn entity(&self) -> (entity: &E)
        ensures
            *entity == self.entity,
    {
        &self.entity
    }

    /// The listens attributed to the entity.
    pub fn listens(&self) -> (listens: &ListenCollection)
        ensures
            *listens == self.listens,
    {
        &self.listens
    }

    /// Number of listens attributed to the entity.
    pub fn listen_count(&self) -> (count: usize)
        ensures
            count == self.listens@.len(),
    {
        self.listens.listen_count()
    }

    /// Timestamp of the most recent listen, if any.
    pub fn latest_listen_date(&self) -> (latest: Option<i64>)
        ensures
            latest == latest_timestamp(self.listens@),
    {
        self.listens.latest_listen_date()
    }

    /// Timestamp of the least recent listen, if any.
    pub fn oldest_listen_date(&self) -> (oldest: Option<i64>)
        ensures
            oldest == oldest_timestamp(self.listens@),
    {
        self.listens.oldest_listen_date()
    }

    /// Takes over the listens of `other`, after those already held. The entity
    /// stays; the caller merges only aggregates of one identity.
    ///
    /// The merged count is the sum of the two counts, and the merged extreme
    /// timestamps are the extremes across both.
    pub fn merge(&mut self, other: Self)
        ensures
            final(self).entity == old(self).entity,
            final(self).listens@ == old(self).listens@ + other.listens@,
            final(self).listens@.len() == old(self).listens@.len() + other.listens@.len(),
            latest_timestamp(final(self).listens@) == later_of(
                latest_timestamp(old(self).listens@),
                latest_timestamp(other.listens@),
            ),
            oldest_timestamp(final(self).listens@) == earlier_of(
                oldest_timestamp(old(self).listens@),
                oldest_timestamp(other.listens@),
            ),
    {
        proof {
            lemma_extremes_of_concat(self.listens@, other.listens@);
        }
        self.listens.merge(other.listens);
    }

    /// Gives up the listens and keeps the entity.
    pub fn into_entity(self) -> (entity: E)
        ensures
            entity == self.entity,
    {
        self.entity
    }
}

impl EntityWithListens<Recording> {
    /// The recording.
    pub fn recording(&self) -> (recording: &Recording)
        ensures
            *recording == self.entity,
    {
        &self.entity
    }
}

/// Whether some aggregate of `s` has the identifier `mbid`.
pub open spec fn has_mbid<E: HasMbid>(s: Seq<Aggregate<E>>, mbid: Seq<char>) -> bool {
    exists|i: int| 0 <= i < s.len() && (#[trigger] s[i]).entity.mbid() == mbid
}

/// Position of an aggregate of `s` with the identifier `mbid`; meaningful
/// where [`has_mbid`] holds, and the only such position where the
/// identifiers of `s` are distinct.
pub open spec fn index_of_mbid<E: HasMbid>(s: Seq<Aggregate<E>>, mbid: Seq<char>) -> int {
    choose|i: int| 0 <= i < s.len() && (#[trigger] s[i]).entity.mbid() == mbid
}

/// No two aggregates of `s` share an identifier.
pub open spec fn distinct_mbids<E: HasMbid>(s: Seq<Aggregate<E>>) -> bool {
    forall|i: int, j: int|
        0 <= i < j < s.len() ==> (#[trigger] s[i]).entity.mbid() != (#[trigger] s[j]).entity.mbid()
}

/// `s` after `item` has come in: where its identifier is already present the
/// listens are appended to the aggregate that is there, which keeps its
/// entity and its position; otherwise `item` becomes the last aggregate.
pub open spec fn insert_or_merge<E: HasMbid>(s: Seq<Aggregate<E>>, item: Aggregate<E>) -> Seq<
    Aggregate<E>,
> {
    if has_mbid(s, item.entity.mbid()) {
        let i = index_of_mbid(s, item.entity.mbid());
        s.update(i, Aggregate { entity: s[i].entity, listens: s[i].listens + item.listens })
    } else {
        s.push(item)
    }
}

/// `items` brought in one after the other, from none.
pub open spec fn grouped<E: HasMbid>(items: Seq<Aggregate<E>>) -> Seq<Aggregate<E>>
    decreases items.len(),
{
    if items.len() == 0 {
        Seq::empty()
    } else {
        insert_or_merge(grouped(items.drop_last()), items.last())
    }
}

/// The aggregate that stands for one listen attributed to `entity`.
pub open spec fn single<E>(entity: E, listen: Listen) -> Aggregate<E> {
    Aggregate { entity, listens: seq![listen] }
}

/// A listen together with an entity that it is attributed to: the recording
/// that was played, an artist credited on it, a work that it performs.
#[derive(Debug)]
pub struct Attributed<E> {
    /// The entity.
    pub entity: E,
    /// The listen.
    pub listen: Listen,
}

/// The aggregates that stand for the listens of `items`, one each, in order.
pub open spec fn singles<E>(items: Seq<Attributed<E>>) -> Seq<Aggregate<E>> {
    items.map_values(|item: Attributed<E>| single(item.entity, item.listen))
}

/// Bringing an item in keeps identifiers distinct.
pub proof fn lemma_insert_or_merge_distinct<E: HasMbid>(s: Seq<Aggregate<E>>, item: Aggregate<E>)
    requires
        distinct_mbids(s),
    ensures
        distinct_mbids(insert_or_merge(s, item)),
{
    let r = insert_or_merge(s, item);
    if has_mbid(s, item.entity.mbid()) {
        let i = index_of_mbid(s, item.entity.mbid());
        assert forall|a: int, b: int| 0 <= a < b < r.len() implies (#[trigger] r[a]).entity.mbid()
            != (#[trigger] r[b]).entity.mbid() by {
            assert(r[a].entity == s[a].entity);
            assert(r[b].entity == s[b].entity);
        }
    } else {
        assert forall|a: int, b: int| 0 <= a < b < r.len() implies (#[trigger] r[a]).entity.mbid()
            != (#[trigger] r[b]).entity.mbid() by {
            assert(r[a] == s[a]);
            if b < s.len() {
                assert(r[b] == s[b]);
            }
        }
    }
}

/// Bringing in an item whose identifier is already present merges: the
/// aggregate of that identifier keeps its entity, its count becomes the sum
/// of the two counts, its latest and oldest timestamps become the extremes
/// across both, and no other aggregate changes.
pub proof fn lemma_merge_same_identity<E: HasMbid>(s: Seq<Aggregate<E>>, item: Aggregate<E>)
    requires
        has_mbid(s, item.entity.mbid()),
    ensures
        ({
            let i = index_of_mbid(s, item.entity.mbid());
            let merged = insert_or_merge(s, item);
            &&& merged.len() == s.len()
            &&& merged[i].entity == s[i].entity
            &&& merged[i].listens.len() == s[i].listens.len() + item.listens.len()
            &&& latest_timestamp(merged[i].listens) == later_of(
                latest_timestamp(s[i].listens),
                latest_timestamp(item.listens),
            )
            &&& oldest_timestamp(merged[i].listens) == earlier_of(
                oldest_timestamp(s[i].listens),
                oldest_timestamp(item.listens),
            )
            &&& forall|j: int| 0 <= j < s.len() && j != i ==> #[trigger] merged[j] == s[j]
        }),
{
    let i = index_of_mbid(s, item.entity.mbid());
    lemma_extremes_of_concat(s[i].listens, item.listens);
}

/// Grouping yields distinct identifiers.
pub proof fn lemma_grouped_distinct<E: HasMbid>(items: Seq<Aggregate<E>>)
    ensures
        distinct_mbids(grouped(items)),
    decreases items.len(),
{
    if items.len() > 0 {
        lemma_grouped_distinct(items.drop_last());
        lemma_insert_or_merge_distinct(grouped(items.drop_last()), items.last());
    }
}

/// Listens of `items` that belong to the identifier `mbid`, in order.
pub open spec fn listens_of<E: HasMbid>(items: Seq<Aggregate<E>>, mbid: Seq<char>) -> Seq<Listen>
    decreases items.len(),
{
    if items.len() == 0 {
        Seq::empty()
    } else if items.last().entity.mbid() == mbid {
        listens_of(items.drop_last(), mbid) + items.last().listens
    } else {
        listens_of(items.drop_last(), mbid)
    }
}

/// Grouping neither loses nor invents: an identifier has an aggregate exactly
/// when some item carries it, and that aggregate holds all listens that the
/// items give the identifier, in their order.
pub proof fn lemma_grouped_listens<E: HasMbid>(items: Seq<Aggregate<E>>, mbid: Seq<char>)
    ensures
        has_mbid(grouped(items), mbid) <==> has_mbid(items, mbid),
        has_mbid(items, mbid) ==> grouped(items)[index_of_mbid(grouped(items), mbid)].listens
            == listens_of(items, mbid),
    decreases items.len(),
{
    if items.len() > 0 {
        let front = items.drop_last();
        let last = items.last();
        let before = grouped(front);
        let after = grouped(items);
        lemma_grouped_listens(front, mbid);
        lemma_grouped_listens(front, last.entity.mbid());
        lemma_grouped_distinct(front);
        lemma_grouped_distinct(items);
        if has_mbid(before, last.entity.mbid()) {
            let at = index_of_mbid(before, last.entity.mbid());
            assert(after[at].entity == before[at].entity);
            if has_mbid(before, mbid) {
                let i = index_of_mbid(before, mbid);
                assert(after[i].entity.mbid() == mbid);
                let fi = choose|k: int| 0 <= k < front.len() && (#[trigger] front[k]).entity.mbid() == mbid;
                assert(items[fi].entity.mbid() == mbid);
            }
            if has_mbid(after, mbid) {
                let i = index_of_mbid(after, mbid);
                assert(before[i].entity.mbid() == mbid);
            }
            if has_mbid(items, mbid) {
                let k = choose|k: int| 0 <= k < items.len() && (#[trigger] items[k]).entity.mbid() == mbid;
                if k < front.len() {
                    assert(front[k].entity.mbid() == mbid);
                } else {
                    assert(before[at].entity.mbid() == mbid);
                }
            }
        } else {
            assert(after[after.len() - 1] == last);
            if has_mbid(before, mbid) {
                let i = index_of_mbid(before, mbid);
                assert(after[i] == before[i]);
                let fi = choose|k: int| 0 <= k < front.len() && (#[trigger] front[k]).entity.mbid() == mbid;
                assert(items[fi].entity.mbid() == mbid);
            }
            if has_mbid(after, mbid) {
                let i = index_of_mbid(after, mbid);
                if i < before.len() {
                    assert(before[i].entity.mbid() == mbid);
                } else {
                    assert(items[items.len() - 1].entity.mbid() == mbid);
                }
            }
            if has_mbid(items, mbid) {
                let k = choose|k: int| 0 <= k < items.len() && (#[trigger] items[k]).entity.mbid() == mbid;
                if k < front.len() {
                    assert(front[k].entity.mbid() == mbid);
                }
            }
        }
        if has_mbid(items, mbid) {
            let j = index_of_mbid(after, mbid);
            if last.entity.mbid() == mbid {
                if has_mbid(before, mbid) {
                    let at = index_of_mbid(before, mbid);
                    assert(after[at].entity.mbid() == mbid);
                    assert(j == at);
                } else {
                    assert(after[after.len() - 1].entity.mbid() == mbid);
                    assert(j == after.len() - 1);
                    lemma_listens_of_absent(front, mbid);
                    assert(listens_of(front, mbid) + last.listens =~= last.listens);
                }
            } else {
                let i = index_of_mbid(before, mbid);
                assert(after[i].entity.mbid() == mbid);
                assert(j == i);
            }
        }
    }
}

/// Items that never carry an identifier give it no listens.
pub proof fn lemma_listens_of_absent<E: HasMbid>(items: Seq<Aggregate<E>>, mbid: Seq<char>)
    requires
        !has_mbid(items, mbid),
    ensures
        listens_of(items, mbid) == Seq::<Listen>::empty(),
    decreases items.len(),
{
    if items.len() > 0 {
        let front = items.drop_last();
        assert(items[items.len() - 1].entity.mbid() != mbid);
        assert(!has_mbid(front, mbid)) by {
            if has_mbid(front, mbid) {
                let k = choose|k: int| 0 <= k < front.len() && (#[trigger] front[k]).entity.mbid() == mbid;
                assert(items[k].entity.mbid() == mbid);
            }
        }
        lemma_listens_of_absent(front, mbid);
    }
}

/// Entities with their listens, one aggregate per identifier, in the order in
/// which the identifiers first came in.
#[derive(Debug)]
pub struct EntityWithListensCollection<E: HasMbid> {
    entries: Vec<EntityWithListens<E>>,
}

/// Recordings with their listens.
pub type RecordingWithListensCollection = EntityWithListensCollection<Recording>;

/// Artists with the listens of their recordings.
pub type ArtistWithRecordingsCollection = EntityWithListensCollection<Artist>;

/// Values of the aggregates of `entries`, in order.
pub open spec fn values_of<E>(entries: Seq<EntityWithListens<E>>) -> Seq<Aggregate<E>> {
    entries.map_values(|e: EntityWithListens<E>| e@)
}

impl<E: HasMbid> EntityWithListensCollection<E> {
    /// The aggregates as they are held, in the order of the collection.
    pub closed spec fn entries(&self) -> Seq<EntityWithListens<E>> {
        self.entries@
    }
}

impl<E: HasMbid> View for EntityWithListensCollection<E> {
    type V = Seq<Aggregate<E>>;

    open spec fn view(&self) -> Seq<Aggregate<E>> {
        values_of(self.entries())
    }
}

impl<E: HasMbid> EntityWithListensCollection<E> {
    /// The invariant of the type: no identifier occurs twice.
    pub open spec fn well_formed(&self) -> bool {
        distinct_mbids(self@)
    }

    /// A collection without entries.
    pub fn new() -> (collection: Self)
        ensures
            collection@.len() == 0,
            collection.well_formed(),
    {
        EntityWithListensCollection { entries: Vec::new() }
    }

    /// Number of distinct entities held.
    pub fn len(&self) -> (count: usize)
        ensures
            count == self@.len(),
    {
        self.entries.len()
    }

    /// Whether no entity is held.
    pub fn is_empty(&self) -> (empty: bool)
        ensures
            empty <==> self@.len() == 0,
    {
        self.entries.len() == 0
    }

    /// Position of the aggregate with the identifier `mbid`, if there is one.
    pub fn position(&self, mbid: &String) -> (found: Option<usize>)
        ensures
            found is Some <==> has_mbid(self@, mbid@),
            found matches Some(i) ==> i < self@.len() && self@[i as int].entity.mbid() == mbid@,
            self.well_formed() ==> (found matches Some(i) ==> i == index_of_mbid(self@, mbid@)),
    {
        let mut i: usize = 0;
        while i < self.entries.len()
            invariant
                i <= self.entries.len(),
                forall|j: int| 0 <= j < i ==> (#[trigger] self@[j]).entity.mbid() != mbid@,
            decreases self.entries.len() - i,
        {
            if *self.entries[i].entity.get_mbid() == *mbid {
                assert(self@[i as int].entity.mbid() == mbid@);
                return Some(i);
            }
            i += 1;
        }
        None
    }

    /// The aggregate with the identifier `mbid`, if there is one.
    pub fn get(&self, mbid: &String) -> (found: Option<&EntityWithListens<E>>)
        ensures
            found is Some <==> has_mbid(self@, mbid@),
            found matches Some(pair) ==> {
                &&& pair.entity.mbid() == mbid@
                &&& exists|i: int| 0 <= i < self@.len() && #[trigger] self@[i] == pair@
            },
            self.well_formed() ==> (found matches Some(pair) ==> pair@ == self@[index_of_mbid(
                self@,
                mbid@,
            )]),
    {
        match self.position(mbid) {
            Some(i) => {
                assert(self@[i as int] == self.entries[i as int]@);
                Some(&self.entries[i])
            },
            None => None,
        }
    }

    /// Brings `item` in: merged into the aggregate of its identifier where
    /// there is one, appended otherwise.
    pub fn insert_or_merge_entity(&mut self, item: EntityWithListens<E>)
        requires
            old(self).well_formed(),
        ensures
            final(self).well_formed(),
            final(self)@ == insert_or_merge(old(self)@, item@),
    {
        proof {
            lemma_insert_or_merge_distinct(self@, item@);
        }
        match self.position(item.entity.get_mbid()) {
            Some(i) => {
                let ghost before = self.entries@;
                let mut found = self.entries.swap_remove(i);
                found.merge(item);
                self.entries.push(found);
                let moved = self.entries.swap_remove(i);
                self.entries.push(moved);
                assert(self.entries@ =~= before.update(i as int, found));
                assert(self@ =~= insert_or_merge(values_of(before), item@));
            },
            None => {
                let ghost before = self.entries@;
                self.entries.push(item);
                assert(self@ =~= insert_or_merge(values_of(before), item@));
            },
        }
    }

    /// Brings one listen in, attributed to `entity`.
    pub fn insert_or_merge_listen(&mut self, entity: E, listen: Listen)
        requires
            old(self).well_formed(),
        ensures
            final(self).well_formed(),
            final(self)@ == insert_or_merge(old(self)@, single(entity, listen)),
    {
        let mut one: Vec<Listen> = Vec::new();
        one.push(listen);
        let item = EntityWithListens::new(entity, ListenCollection::new(one));
        assert(item@.listens =~= seq![listen]);
        self.insert_or_merge_entity(item);
    }

    /// Brings every aggregate of `other` in, in its order.
    pub fn merge_by_mbid(&mut self, other: Self)
        requires
            old(self).well_formed(),
        ensures
            final(self).well_formed(),
            final(self)@ == other@.fold_left(
                old(self)@,
                |acc: Seq<Aggregate<E>>, item: Aggregate<E>| insert_or_merge(acc, item),
            ),
    {
        let ghost all = other@;
        let ghost start = self@;
        let ghost step = |acc: Seq<Aggregate<E>>, item: Aggregate<E>| insert_or_merge(acc, item);
        let ghost rest0 = other.entries@;
        let mut rest = reversed(other.entries);
        let ghost n = rest0.len() as int;
        let ghost mut done: int = 0;
        assert(all.take(0) =~= Seq::<Aggregate<E>>::empty());
        while rest.len() > 0
            invariant
                self.well_formed(),
                all == values_of(rest0),
                n == rest0.len(),
                0 <= done,
                all.len() == n,
                done + rest.len() == n,
                forall|k: int| 0 <= k < rest.len() ==> #[trigger] rest@[k] == rest0[n - 1 - k],
                self@ == all.take(done).fold_left(start, step),
                step == |acc: Seq<Aggregate<E>>, item: Aggregate<E>| insert_or_merge(acc, item),
            decreases rest.len(),
        {
            let item = rest.pop().unwrap();
            proof {
                assert(item == rest0[done]);
                assert(all.take(done + 1).drop_last() =~= all.take(done));
                assert(all.take(done + 1).last() == item@);
            }
            self.insert_or_merge_entity(item);
            proof {
                done = done + 1;
            }
        }
        assert(all.take(done) =~= all);
    }

    /// References to the entities, in the order of the collection.
    pub fn iter_entities(&self) -> (entities: Vec<&E>)
        ensures
            entities@.len() == self@.len(),
            forall|i: int| 0 <= i < self@.len() ==> *(#[trigger] entities@[i]) == self@[i].entity,
    {
        let mut entities: Vec<&E> = Vec::new();
        let mut i: usize = 0;
        while i < self.entries.len()
            invariant
                i <= self.entries.len(),
                entities@.len() == i,
                forall|j: int| 0 <= j < i ==> *(#[trigger] entities@[j]) == self@[j].entity,
            decreases self.entries.len() - i,
        {
            entities.push(&self.entries[i].entity);
            i += 1;
        }
        entities
    }

    /// The aggregates, in the order of the collection.
    pub fn into_vec(self) -> (entries: Vec<EntityWithListens<E>>)
        ensures
            entries@ == self.entries(),
            values_of(entries@) == self@,
    {
        self.entries
    }

    /// Groups listens by the entity that each is attributed to: entities in
    /// order of first appearance, each with its listens in their order.
    pub fn from_attributed(items: Vec<Attributed<E>>) -> (collection: Self)
        ensures
            collection.well_formed(),
            collection@ == grouped(singles(items@)),
    {
        let ghost all = items@;
        let ghost n = all.len() as int;
        let mut rest = reversed(items);
        let mut collection = Self::new();
        let ghost mut done: int = 0;
        assert(singles(all).take(0) =~= Seq::<Aggregate<E>>::empty());
        assert(collection@ =~= Seq::<Aggregate<E>>::empty());
        while rest.len() > 0
            invariant
                n == all.len(),
                0 <= done,
                done + rest@.len() == n,
                forall|k: int| 0 <= k < rest@.len() ==> #[trigger] rest@[k] == all[n - 1 - k],
                collection.well_formed(),
                collection@ == grouped(singles(all).take(done)),
            decreases rest.len(),
        {
            let item = rest.pop().unwrap();
            proof {
                assert(item == all[done]);
                assert(singles(all).take(done + 1).drop_last() =~= singles(all).take(done));
                assert(singles(all).take(done + 1).last() == single(item.entity, item.listen));
            }
            collection.insert_or_merge_listen(item.entity, item.listen);
            proof {
                done = done + 1;
            }
        }
        assert(singles(all).take(done) =~= singles(all));
        collection
    }

    /// Groups aggregates by identifier, in order of first appearance.
    pub fn from_entities(items: Vec<EntityWithListens<E>>) -> (collection: Self)
        ensures
            collection.well_formed(),
            collection@ == grouped(values_of(items@)),
    {
        let ghost all = values_of(items@);
        let ghost items0 = items@;
        let mut rest = reversed(items);
        let ghost n = items0.len() as int;
        let mut collection = Self::new();
        let ghost mut done: int = 0;
        assert(all.take(0) =~= Seq::<Aggregate<E>>::empty());
        assert(collection@ =~= Seq::<Aggregate<E>>::empty());
        while rest.len() > 0
            invariant
                collection.well_formed(),
                all == values_of(items0),
                n == items0.len(),
                0 <= done,
                all.len() == n,
                done + rest.len() == n,
                forall|k: int| 0 <= k < rest.len() ==> #[trigger] rest@[k] == items0[n - 1 - k],
                collection@ == grouped(all.take(done)),
            decreases rest.len(),
        {
            let item = rest.pop().unwrap();
            proof {
                assert(item == items0[done]);
                assert(all.take(done + 1).drop_last() =~= all.take(done));
                assert(all.take(done + 1).last() == item@);
            }
            collection.insert_or_merge_entity(item);
            proof {
                done = done + 1;
            }
        }
        assert(all.take(done) =~= all);
        collection
    }
}

/// The artists credited on one recording.
#[derive(Debug)]
pub struct Credits {
    /// Identifier of the recording.
    pub recording: String,
    /// The credited artists, in the order of the credit.
    pub artists: Vec<Artist>,
}

/// What one credit gives its artists: each gets the listens of the credited
/// recording. A credit on a recording that `recordings` do not hold gives
/// nothing.
pub open spec fn credited_by(recordings: Seq<Aggregate<Recording>>, credit: Credits) -> Seq<
    Aggregate<Artist>,
> {
    if has_mbid(recordings, credit.recording@) {
        let listens = recordings[index_of_mbid(recordings, credit.recording@)].listens;
        credit.artists@.map_values(|artist: Artist| Aggregate { entity: artist, listens })
    } else {
        Seq::empty()
    }
}

/// What all `credits` give their artists, credit after credit.
pub open spec fn credited(recordings: Seq<Aggregate<Recording>>, credits: Seq<Credits>) -> Seq<
    Aggregate<Artist>,
>
    decreases credits.len(),
{
    if credits.len() == 0 {
        Seq::empty()
    } else {
        credited(recordings, credits.drop_last()) + credited_by(recordings, credits.last())
    }
}

impl EntityWithListensCollection<Artist> {
    /// Derives the listens of artists from those of recordings: every artist
    /// credited on a recording gets the listens of that recording, and what
    /// an artist gets from several recordings is merged in the order of
    /// `credits`.
    pub fn from_listencollection(recordings: &RecordingWithListensCollection, credits: Vec<Credits>) -> (artists:
        Self)
        requires
            recordings.well_formed(),
        ensures
            artists.well_formed(),
            artists@ == grouped(credited(recordings@, credits@)),
    {
        let mut out = Self::new();
        let mut i: usize = 0;
        assert(credits@.take(0) =~= Seq::<Credits>::empty());
        assert(out@ =~= Seq::<Aggregate<Artist>>::empty());
        while i < credits.len()
            invariant
                i <= credits.len(),
                out.well_formed(),
                recordings.well_formed(),
                out@ == grouped(credited(recordings@, credits@.take(i as int))),
            decreases credits.len() - i,
        {
            let credit = &credits[i];
            let ghost done = credited(recordings@, credits@.take(i as int));
            let ghost given = credited_by(recordings@, *credit);
            proof {
                assert(credits@.take(i + 1).drop_last() =~= credits@.take(i as int));
                assert(credits@.take(i + 1).last() == *credit);
                assert(done + given.take(0) =~= done);
            }
            match recordings.get(&credit.recording) {
                Some(recording) => {
                    let mut j: usize = 0;
                    while j < credit.artists.len()
                        invariant
                            j <= credit.artists.len(),
                            out.well_formed(),
                            given == credited_by(recordings@, *credit),
                            given.len() == credit.artists@.len(),
                            has_mbid(recordings@, credit.recording@),
                            recording@ == recordings@[index_of_mbid(recordings@, credit.recording@)],
                            out@ == grouped(done + given.take(j as int)),
                        decreases credit.artists.len() - j,
                    {
                        let item = EntityWithListens::new(
                            credit.artists[j].clone(),
                            recording.listens.clone(),
                        );
                        proof {
                            assert(item@ == given[j as int]);
                            assert((done + given.take(j + 1)).drop_last() =~= done + given.take(
                                j as int,
                            ));
                            assert((done + given.take(j + 1)).last() == given[j as int]);
                        }
                        out.insert_or_merge_entity(item);
                        j += 1;
                    }
                    assert(given.take(j as int) =~= given);
                },
                None => {
                    assert(done + given =~= done);
                },
            }
            i += 1;
        }
        assert(credits@.take(i as int) =~= credits@);
        out
    }
}

} // verus!
