//! Catalog entities, reduced to what radio generation reads of them.

use vstd::prelude::*;

verus! {

/// An entity that carries a stable catalog identifier.
///
/// Two entities are the same entity exactly when their identifiers match
/// character for character.
pub trait HasMbid {
    /// The identifier, as a sequence of characters.
    spec fn mbid(&self) -> Seq<char>;

    /// Borrows the identifier.
    fn get_mbid(&self) -> (id: &String)
        ensures
            id@ == self.mbid(),
    ;
}

/// A recording of the catalog.
#[derive(Debug, PartialEq, Eq)]
pub struct Recording {
    /// Catalog identifier.
    pub mbid: String,
    /// Title, for display.
    pub title: String,
    /// Play length in milliseconds, where the catalog knows it.
    pub length: Option<i64>,
}

/// An artist of the catalog.
#[derive(Debug, PartialEq, Eq)]
pub struct Artist {
    /// Catalog identifier.
    pub mbid: String,
    /// Name, for display.
    pub name: String,
}

/// A musical work of the catalog.
#[derive(Debug, PartialEq, Eq)]
pub struct Work {
    /// Catalog identifier.
    pub mbid: String,
    /// Title, for display.
    pub title: String,
}

/// Play length that budgets and simulated clocks count for a recording, in
/// milliseconds: its catalog length, or nothing where that is unknown or
/// negative.
pub open spec fn nominal_duration_ms(length: Option<i64>) -> nat {
    match length {
        Some(ms) => if ms > 0 { ms as nat } else { 0 },
        None => 0,
    }
}

impl Recording {
    /// See [`nominal_duration_ms`].
    pub open spec fn nominal_duration(&self) -> nat {
        nominal_duration_ms(self.length)
    }

    /// Play length counted for this recording, in milliseconds.
    pub fn nominal_duration_millis(&self) -> (ms: u64)
        ensures
            ms == self.nominal_duration(),
    {
        match self.length {
            Some(ms) => if ms > 0 { ms as u64 } else { 0 },
            None => 0,
        }
    }
}

impl HasMbid for Recording {
    open spec fn mbid(&self) -> Seq<char> {
        self.mbid@
    }

    fn get_mbid(&self) -> (id: &String) {
        &self.mbid
    }
}

impl HasMbid for Artist {
    open spec fn mbid(&self) -> Seq<char> {
        self.mbid@
    }

    fn get_mbid(&self) -> (id: &String) {
        &self.mbid
    }
}

impl HasMbid for Work {
    open spec fn mbid(&self) -> Seq<char> {
        self.mbid@
    }

    fn get_mbid(&self) -> (id: &String) {
        &self.mbid
    }
}

impl Clone for Recording {
    fn clone(&self) -> (copy: Self)
        ensures
            copy == *self,
    {
        Recording { mbid: self.mbid.clone(), title: self.title.clone(), length: self.length }
    }
}

impl Clone for Artist {
    fn clone(&self) -> (copy: Self)
        ensures
            copy == *self,
    {
        Artist { mbid: self.mbid.clone(), name: self.name.clone() }
    }
}

impl Clone for Work {
    fn clone(&self) -> (copy: Self)
        ensures
            copy == *self,
    {
        Work { mbid: self.mbid.clone(), title: self.title.clone() }
    }
}

/// Whether `wanted` occurs among `ids`, character for character.
pub open spec fn ids_contain(ids: Seq<String>, wanted: Seq<char>) -> bool {
    exists|i: int| 0 <= i < ids.len() && #[trigger] ids[i]@ == wanted
}

/// Tests whether `wanted` occurs among `ids`.
pub fn contains_id(ids: &Vec<String>, wanted: &String) -> (found: bool)
    ensures
        found == ids_contain(ids@, wanted@),
{
    let mut i: usize = 0;
    while i < ids.len()
        invariant
            i <= ids.len(),
            forall|j: int| 0 <= j < i ==> #[trigger] ids[j]@ != wanted@,
        decreases ids.len() - i,
    {
        if ids[i] == *wanted {
            return true;
        }
        i += 1;
    }
    false
}

} // verus!
