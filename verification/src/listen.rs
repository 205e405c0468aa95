//! Listens and ordered collections of listens.

use vstd::prelude::*;

verus! {

/// One play of a recording by a user.
#[derive(Debug, PartialEq, Eq)]
pub struct Listen {
    /// Name of the user who listened.
    pub user: String,
    /// Identifier of the recording that was played.
    pub recording: String,
    /// Unix timestamp of the play, in seconds.
    pub listened_at: i64,
}

impl Clone for Listen {
    fn clone(&self) -> (copy: Self)
        ensures
            copy == *self,
    {
        Listen {
            user: self.user.clone(),
            recording: self.recording.clone(),
            listened_at: self.listened_at,
        }
    }
}

/// The greater of two optional timestamps; an absent one never wins.
pub open spec fn later_of(a: Option<i64>, b: Option<i64>) -> Option<i64> {
    match (a, b) {
        (None, _) => b,
        (_, None) => a,
        (Some(x), Some(y)) => Some(if x >= y { x } else { y }),
    }
}

/// The lesser of two optional timestamps; an absent one never wins.
pub open spec fn earlier_of(a: Option<i64>, b: Option<i64>) -> Option<i64> {
    match (a, b) {
        (None, _) => b,
        (_, None) => a,
        (Some(x), Some(y)) => Some(if x <= y { x } else { y }),
    }
}

/// Timestamp of the most recent listen of `s`, if it has any.
pub open spec fn latest_timestamp(s: Seq<Listen>) -> Option<i64>
    decreases s.len(),
{
    if s.len() == 0 {
        None
    } else {
        later_of(latest_timestamp(s.drop_last()), Some(s.last().listened_at))
    }
}

/// Timestamp of the least recent listen of `s`, if it has any.
pub open spec fn oldest_timestamp(s: Seq<Listen>) -> Option<i64>
    decreases s.len(),
{
    if s.len() == 0 {
        None
    } else {
        earlier_of(oldest_timestamp(s.drop_last()), Some(s.last().listened_at))
    }
}

/// The most recent timestamp is attained by some listen and bounds all of them.
pub proof fn lemma_latest_is_maximum(s: Seq<Listen>)
    ensures
        s.len() == 0 <==> latest_timestamp(s) is None,
        latest_timestamp(s) matches Some(t) ==> {
            &&& exists|i: int| 0 <= i < s.len() && #[trigger] s[i].listened_at == t
            &&& forall|i: int| 0 <= i < s.len() ==> #[trigger] s[i].listened_at <= t
        },
    decreases s.len(),
{
    if s.len() > 0 {
        let front = s.drop_last();
        lemma_latest_is_maximum(front);
        let t = latest_timestamp(s)->Some_0;
        if t == s.last().listened_at {
            assert(s[s.len() - 1].listened_at == t);
        } else {
            let i = choose|i: int| 0 <= i < front.len() && #[trigger] front[i].listened_at == t;
            assert(s[i].listened_at == t);
        }
        assert forall|i: int| 0 <= i < s.len() implies #[trigger] s[i].listened_at <= t by {
            if i < front.len() {
                assert(front[i].listened_at <= t);
            }
        }
    }
}

/// The least recent timestamp is attained by some listen and bounds all of them.
pub proof fn lemma_oldest_is_minimum(s: Seq<Listen>)
    ensures
        s.len() == 0 <==> oldest_timestamp(s) is None,
        oldest_timestamp(s) matches Some(t) ==> {
            &&& exists|i: int| 0 <= i < s.len() && #[trigger] s[i].listened_at == t
            &&& forall|i: int| 0 <= i < s.len() ==> #[trigger] s[i].listened_at >= t
        },
    decreases s.len(),
{
    if s.len() > 0 {
        let front = s.drop_last();
        lemma_oldest_is_minimum(front);
        let t = oldest_timestamp(s)->Some_0;
        if t == s.last().listened_at {
            assert(s[s.len() - 1].listened_at == t);
        } else {
            let i = choose|i: int| 0 <= i < front.len() && #[trigger] front[i].listened_at == t;
            assert(s[i].listened_at == t);
        }
        assert forall|i: int| 0 <= i < s.len() implies #[trigger] s[i].listened_at >= t by {
            if i < front.len() {
                assert(front[i].listened_at >= t);
            }
        }
    }
}

/// Concatenating two histories joins their extreme timestamps: the latest of
/// the whole is the later of the two latest, the oldest the earlier of the two
/// oldest.
pub proof fn lemma_extremes_of_concat(a: Seq<Listen>, b: Seq<Listen>)
    ensures
        latest_timestamp(a + b) == later_of(latest_timestamp(a), latest_timestamp(b)),
        oldest_timestamp(a + b) == earlier_of(oldest_timestamp(a), oldest_timestamp(b)),
    decreases b.len(),
{
    if b.len() == 0 {
        assert(a + b =~= a);
    } else {
        lemma_extremes_of_concat(a, b.drop_last());
        assert((a + b).drop_last() =~= a + b.drop_last());
        assert((a + b).last() == b.last());
    }
}

/// An ordered sequence of listens, oldest insertion first.
#[derive(Debug)]
pub struct ListenCollection {
    listens: Vec<Listen>,
}

impl View for ListenCollection {
    type V = Seq<Listen>;

    closed spec fn view(&self) -> Seq<Listen> {
        self.listens@
    }
}

impl ListenCollection {
    /// Wraps the listens in the order given.
    pub fn new(listens: Vec<Listen>) -> (collection: Self)
        ensures
            collection@ == listens@,
    {
        ListenCollection { listens }
    }

    /// Number of listens held.
    pub fn listen_count(&self) -> (count: usize)
        ensures
            count == self@.len(),
    {
        self.listens.len()
    }

    /// Whether no listen is held.
    pub fn is_empty(&self) -> (empty: bool)
        ensures
            empty <==> self@.len() == 0,
    {
        self.listens.len() == 0
    }

    /// The listen at position `index`, if there is one.
    pub fn get(&self, index: usize) -> (listen: Option<&Listen>)
        ensures
            index < self@.len() ==> listen == Some(&self@[index as int]),
            index >= self@.len() ==> listen is None,
    {
        if index < self.listens.len() {
            Some(&self.listens[index])
        } else {
            None
        }
    }

    /// Timestamp of the most recent listen, if any.
    pub fn latest_listen_date(&self) -> (latest: Option<i64>)
        ensures
            latest == latest_timestamp(self@),
    {
        let mut latest: Option<i64> = None;
        let mut i: usize = 0;
        while i < self.listens.len()
            invariant
                i <= self.listens.len(),
                latest == latest_timestamp(self.listens@.take(i as int)),
            decreases self.listens.len() - i,
        {
            let at: i64 = self.listens[i].listened_at;
            proof {
                assert(self.listens@.take(i + 1).drop_last() =~= self.listens@.take(i as int));
            }
            latest = match latest {
                None => Some(at),
                Some(t) => Some(if t >= at { t } else { at }),
            };
            i += 1;
        }
        proof {
            assert(self.listens@.take(i as int) =~= self.listens@);
        }
        latest
    }

    /// Timestamp of the least recent listen, if any.
    pub fn oldest_listen_date(&self) -> (oldest: Option<i64>)
        ensures
            oldest == oldest_timestamp(self@),
    {
        let mut oldest: Option<i64> = None;
        let mut i: usize = 0;
        while i < self.listens.len()
            invariant
                i <= self.listens.len(),
                oldest == oldest_timestamp(self.listens@.take(i as int)),
            decreases self.listens.len() - i,
        {
            let at: i64 = self.listens[i].listened_at;
            proof {
                assert(self.listens@.take(i + 1).drop_last() =~= self.listens@.take(i as int));
            }
            oldest = match oldest {
                None => Some(at),
                Some(t) => Some(if t <= at { t } else { at }),
            };
            i += 1;
        }
        proof {
            assert(self.listens@.take(i as int) =~= self.listens@);
        }
        oldest
    }

    /// Appends the listens of `other` after those already held; nothing is
    /// deduplicated.
    pub fn merge(&mut self, other: ListenCollection)
        ensures
            final(self)@ == old(self)@ + other@,
    {
        let mut other = other;
        self.listens.append(&mut other.listens);
    }

    /// A collection never holds more listens than memory can address.
    pub proof fn lemma_count_bounded(&self)
        ensures
            self@.len() <= usize::MAX,
    {
        assert(self.listens.len() == self.listens@.len());
    }

    /// Gives the listens back in their order.
    pub fn into_vec(self) -> (listens: Vec<Listen>)
        ensures
            listens@ == self@,
    {
        self.listens
    }
}

impl Clone for ListenCollection {
    fn clone(&self) -> (copy: Self)
        ensures
            copy@ == self@,
    {
        let mut listens: Vec<Listen> = Vec::new();
        let mut i: usize = 0;
        while i < self.listens.len()
            invariant
                i <= self.listens.len(),
                listens@ == self.listens@.take(i as int),
            decreases self.listens.len() - i,
        {
            listens.push(self.listens[i].clone());
            assert(listens@ =~= self.listens@.take(i + 1));
            i += 1;
        }
        assert(self.listens@.take(i as int) =~= self.listens@);
        ListenCollection { listens }
    }
}

impl Default for ListenCollection {
    fn default() -> (collection: Self)
        ensures
            collection@.len() == 0,
    {
        ListenCollection { listens: Vec::new() }
    }
}

} // verus!
