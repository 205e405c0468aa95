//! Getting a listener's history: what to refresh and load, and when to stop
//! pulling pages from the listening service.

use vstd::prelude::*;
use crate::listen::{Listen, ListenCollection};

verus! {

/// Which listens a query gives back.
#[derive(Clone, Copy, Debug, PartialEq, Eq)]
pub enum ListenFetchQueryReturn {
    /// Those that the service has matched to a recording of the catalog.
    Mapped,
    /// Those that it has not.
    Unmapped,
    /// None at all: the query only refreshes.
    Nothing,
}

/// One thing that a query asks the caller to do, with the query's user.
#[derive(Clone, Copy, Debug, PartialEq, Eq)]
pub enum FetchStep {
    /// Pull the user's newer listens from the listening service.
    RefreshListens,
    /// Resolve the recordings of the user's listens that were never fetched.
    RefreshRedirects,
    /// Load the user's mapped listens from storage.
    LoadMapped,
    /// Load the user's unmapped listens from storage.
    LoadUnmapped,
}

/// A request for the listens of one user.
#[derive(Debug)]
pub struct ListenFetchQuery {
    user: String,
    fetch_recordings_redirects: bool,
    selection: ListenFetchQueryReturn,
}

/// The steps of a query, in the order in which they are to be done: the
/// refresh of the listens unless offline, the refresh of the redirects where
/// asked for, then the load of the listens that the query selects.
pub open spec fn fetch_steps(
    offline: bool,
    fetch_recordings_redirects: bool,
    selection: ListenFetchQueryReturn,
) -> Seq<FetchStep> {
    let listens = if offline {
        Seq::<FetchStep>::empty()
    } else {
        seq![FetchStep::RefreshListens]
    };
    let redirects = if fetch_recordings_redirects {
        seq![FetchStep::RefreshRedirects]
    } else {
        Seq::<FetchStep>::empty()
    };
    let load = match selection {
        ListenFetchQueryReturn::Mapped => seq![FetchStep::LoadMapped],
        ListenFetchQueryReturn::Unmapped => seq![FetchStep::LoadUnmapped],
        ListenFetchQueryReturn::Nothing => Seq::<FetchStep>::empty(),
    };
    listens + redirects + load
}

impl ListenFetchQuery {
    /// The user whose listens are asked for.
    pub closed spec fn user(&self) -> String {
        self.user
    }

    /// Whether unresolved recordings are to be resolved first.
    pub closed spec fn fetch_recordings_redirects(&self) -> bool {
        self.fetch_recordings_redirects
    }

    /// Which listens are given back.
    pub closed spec fn selection(&self) -> ListenFetchQueryReturn {
        self.selection
    }

    /// A query for `user` that refreshes no redirects and selects no listens.
    pub fn new(user: String) -> (query: Self)
        ensures
            query.user() == user,
            !query.fetch_recordings_redirects(),
            query.selection() == ListenFetchQueryReturn::Nothing,
    {
        ListenFetchQuery {
            user,
            fetch_recordings_redirects: false,
            selection: ListenFetchQueryReturn::Nothing,
        }
    }

    /// Sets whether unresolved recordings are to be resolved first.
    pub fn with_recordings_redirects(self, fetch: bool) -> (query: Self)
        ensures
            query.user() == self.user(),
            query.fetch_recordings_redirects() == fetch,
            query.selection() == self.selection(),
    {
        ListenFetchQuery { user: self.user, fetch_recordings_redirects: fetch, selection: self.selection }
    }

    /// Sets which listens are given back.
    pub fn with_selection(self, selection: ListenFetchQueryReturn) -> (query: Self)
        ensures
            query.user() == self.user(),
            query.fetch_recordings_redirects() == self.fetch_recordings_redirects(),
            query.selection() == selection,
    {
        ListenFetchQuery {
            user: self.user,
            fetch_recordings_redirects: self.fetch_recordings_redirects,
            selection,
        }
    }

    /// The user whose listens are asked for.
    pub fn username(&self) -> (user: &String)
        ensures
            *user == self.user(),
    {
        &self.user
    }

    /// Says what is to be done for this query, in order; see [`fetch_steps`].
    /// Offline, nothing is pulled from the listening service.
    pub fn fetch(&self, offline: bool) -> (steps: Vec<FetchStep>)
        ensures
            steps@ == fetch_steps(offline, self.fetch_recordings_redirects(), self.selection()),
    {
        let mut steps: Vec<FetchStep> = Vec::new();
        if !offline {
            steps.push(FetchStep::RefreshListens);
        }
        if self.fetch_recordings_redirects {
            steps.push(FetchStep::RefreshRedirects);
        }
        match self.selection {
            ListenFetchQueryReturn::Mapped => steps.push(FetchStep::LoadMapped),
            ListenFetchQueryReturn::Unmapped => steps.push(FetchStep::LoadUnmapped),
            ListenFetchQueryReturn::Nothing => {},
        }
        assert(steps@ =~= fetch_steps(offline, self.fetch_recordings_redirects(), self.selection()));
        steps
    }

    /// The collection that the query gives back, from what the load step
    /// found; without a load step it is empty.
    pub fn collect(&self, loaded: Vec<Listen>) -> (listens: ListenCollection)
        ensures
            self.selection() == ListenFetchQueryReturn::Nothing ==> listens@.len() == 0,
            self.selection() != ListenFetchQueryReturn::Nothing ==> listens@ == loaded@,
    {
        match self.selection {
            ListenFetchQueryReturn::Nothing => ListenCollection::default(),
            _ => ListenCollection::new(loaded),
        }
    }
}

/// Whether another page of listens is to be pulled: with nothing stored yet,
/// as long as the service names an older page; otherwise as long as the page
/// to pull reaches back no further than the latest stored listen.
pub open spec fn pulls_again(latest_listen_ts: Option<i64>, pull_ts: Option<i64>) -> bool {
    match (latest_listen_ts, pull_ts) {
        (None, Some(_)) => true,
        (Some(latest), Some(pull)) => latest <= pull,
        _ => false,
    }
}

/// The pull of a user's newest listens, page by page from the present
/// backwards.
#[derive(Clone, Copy, Debug)]
pub struct LatestListensFetch {
    latest_listen_ts: Option<i64>,
    pull_ts: Option<i64>,
}

impl LatestListensFetch {
    /// Timestamp of the latest listen in storage when the pull began.
    pub closed spec fn latest_listen_ts(&self) -> Option<i64> {
        self.latest_listen_ts
    }

    /// Timestamp before which the next page lies, if the service named one.
    pub closed spec fn pull_ts(&self) -> Option<i64> {
        self.pull_ts
    }

    /// The timestamp to pull the next page before, or `None` once the pull
    /// is complete; see [`pulls_again`].
    pub fn next_pull(&self) -> (before: Option<i64>)
        ensures
            before is Some <==> pulls_again(self.latest_listen_ts(), self.pull_ts()),
            before is Some ==> before == self.pull_ts(),
    {
        match (self.latest_listen_ts, self.pull_ts) {
            (None, Some(pull)) => Some(pull),
            (Some(latest), Some(pull)) => if latest <= pull {
                Some(pull)
            } else {
                None
            },
            _ => None,
        }
    }

    /// Records that a page was pulled and that the one before it lies before
    /// `next`, or that there is none.
    pub fn pulled(&mut self, next: Option<i64>)
        ensures
            final(self).latest_listen_ts() == old(self).latest_listen_ts(),
            final(self).pull_ts() == next,
    {
        self.pull_ts = next;
    }
}

/// Begins the pull of a user's newest listens at `now`. `latest_listen_ts` is
/// the timestamp of the user's latest listen in storage; without one the
/// whole history is pulled.
pub fn fetch_latest_listens_of_user(latest_listen_ts: Option<i64>, now: i64) -> (fetch:
    LatestListensFetch)
    ensures
        fetch.latest_listen_ts() == latest_listen_ts,
        fetch.pull_ts() == Some(now),
{
    LatestListensFetch { latest_listen_ts, pull_ts: Some(now) }
}

/// A listen as the listening service reports it: matched to a recording of
/// the catalog, or not.
#[derive(Debug)]
pub enum ListenMappingState {
    /// Matched; the listen names the recording.
    Mapped(Listen),
    /// Not matched; the listen names only what the player submitted.
    Unmapped(Listen),
}

/// The mapped listen that `state` holds, if it holds one.
pub open spec fn as_mapped(state: ListenMappingState) -> Option<Listen> {
    match state {
        ListenMappingState::Mapped(listen) => Some(listen),
        ListenMappingState::Unmapped(_) => None,
    }
}

/// Keeps the mapped listens, in their order.
pub fn into_mapped_collection(listens: Vec<ListenMappingState>) -> (mapped: Vec<Listen>)
    ensures
        mapped@ == listens@.filter_map(|state: ListenMappingState| as_mapped(state)),
{
    let ghost all = listens@;
    let ghost n = all.len() as int;
    let ghost pick = |state: ListenMappingState| as_mapped(state);
    let mut rest = crate::sequence::reversed(listens);
    let mut mapped: Vec<Listen> = Vec::new();
    let ghost mut done: int = 0;
    assert(all.take(0).filter_map(pick) =~= Seq::<Listen>::empty()) by {
        reveal(Seq::filter_map);
    }
    while rest.len() > 0
        invariant
            n == all.len(),
            0 <= done,
            done + rest@.len() == n,
            forall|k: int| 0 <= k < rest@.len() ==> #[trigger] rest@[k] == all[n - 1 - k],
            pick == |state: ListenMappingState| as_mapped(state),
            mapped@ == all.take(done).filter_map(pick),
        decreases rest.len(),
    {
        let state = rest.pop().unwrap();
        proof {
            assert(state == all[done]);
            assert(all.take(done + 1).drop_last() =~= all.take(done));
            assert(all.take(done + 1).last() == state);
            reveal(Seq::filter_map);
        }
        match state {
            ListenMappingState::Mapped(listen) => mapped.push(listen),
            ListenMappingState::Unmapped(_) => {},
        }
        proof {
            done = done + 1;
        }
    }
    assert(all.take(done) =~= all);
    mapped
}

} // verus!
