//! The seeder: turns a listener's history into the recordings that a radio
//! starts from.

use vstd::prelude::*;
use crate::aggregate::{grouped, singles, Attributed, RecordingWithListensCollection};
use crate::entity::Recording;
use crate::history::{ListenFetchQuery, ListenFetchQueryReturn};

verus! {

/// Why a radio could not be seeded.
#[derive(Clone, Copy, Debug, PartialEq, Eq)]
pub enum SeedingError {
    /// The listener has no listens to seed from.
    NoListens,
}

/// A listen together with the recording that it resolves to.
pub type ResolvedListen = Attributed<Recording>;

/// Seeds radios from the listens of one user.
#[derive(Debug)]
pub struct ListenSeeder {
    username: String,
    selection: ListenFetchQueryReturn,
}

impl ListenSeeder {
    /// The user whose listens seed the radio.
    pub closed spec fn user(&self) -> String {
        self.username
    }

    /// Which of the user's listens seed the radio.
    pub closed spec fn selection(&self) -> ListenFetchQueryReturn {
        self.selection
    }

    /// A seeder for the listens of `username` that `selection` names.
    pub fn new(username: String, selection: ListenFetchQueryReturn) -> (seeder: Self)
        ensures
            seeder.user() == username,
            seeder.selection() == selection,
    {
        ListenSeeder { username, selection }
    }

    /// The user whose listens seed the radio.
    pub fn username(&self) -> (username: &String)
        ensures
            *username == self.user(),
    {
        &self.username
    }

    /// The query that gets the history to seed from: the listens selected,
    /// of the seeder's user, with the recordings resolved first.
    pub fn query(&self) -> (query: ListenFetchQuery)
        ensures
            query.user() == self.user(),
            query.fetch_recordings_redirects(),
            query.selection() == self.selection(),
    {
        ListenFetchQuery::new(self.username.clone()).with_recordings_redirects(true).with_selection(
            self.selection,
        )
    }

    /// Groups `history` by recording, in order of first appearance, each
    /// recording with its listens in their order.
    ///
    /// A history without listens is an error and not an empty seed: a radio
    /// that ends up empty had something to start from.
    pub fn seed(&self, history: Vec<ResolvedListen>) -> (seeded: Result<
        RecordingWithListensCollection,
        SeedingError,
    >)
        ensures
            history@.len() == 0 <==> seeded is Err,
            seeded matches Ok(collection) ==> collection.well_formed() && collection@ == grouped(
                singles(history@),
            ),
            seeded matches Err(error) ==> error == SeedingError::NoListens,
    {
        if history.len() == 0 {
            return Err(SeedingError::NoListens);
        }
        let collection = RecordingWithListensCollection::from_attributed(history);
        Ok(collection)
    }
}

} // verus!
