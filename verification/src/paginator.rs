//! Paging through the listens that the listening service holds of a user.

use vstd::prelude::*;
use crate::listen::{oldest_timestamp, Listen};

verus! {

/// Number of listens asked for per page where the caller names none.
pub const DEFAULT_PAGE_COUNT: u64 = 999;

/// Position in the listens of a user, read from the newest backwards.
#[derive(Debug, PartialEq, Eq)]
pub struct ListenAPIPaginator {
    /// The name of the target user.
    user_name: String,
    /// The Unix timestamp of the earliest listen to retrieve.
    min_ts: Option<i64>,
    /// The Unix timestamp of the latest listen to retrieve.
    max_ts: Option<i64>,
    /// The number of listens to retrieve per page.
    count: Option<u64>,
    /// Reserved by the service.
    time_range: Option<u64>,
}

impl Clone for ListenAPIPaginator {
    fn clone(&self) -> (copy: Self)
        ensures
            copy == *self,
    {
        ListenAPIPaginator {
            user_name: self.user_name.clone(),
            min_ts: self.min_ts,
            max_ts: self.max_ts,
            count: self.count,
            time_range: self.time_range,
        }
    }
}

impl ListenAPIPaginator {
    /// The name of the target user.
    pub closed spec fn user_name(&self) -> String {
        self.user_name
    }

    /// The Unix timestamp of the earliest listen to retrieve.
    pub closed spec fn min_ts(&self) -> Option<i64> {
        self.min_ts
    }

    /// The Unix timestamp of the latest listen to retrieve.
    pub closed spec fn max_ts(&self) -> Option<i64> {
        self.max_ts
    }

    /// The number of listens to retrieve per page.
    pub closed spec fn count(&self) -> Option<u64> {
        self.count
    }

    /// Reserved by the service.
    pub closed spec fn time_range(&self) -> Option<u64> {
        self.time_range
    }

    /// The name of the target user.
    pub fn get_user_name(&self) -> (user_name: &String)
        ensures
            *user_name == self.user_name(),
    {
        &self.user_name
    }

    /// The Unix timestamp of the earliest listen to retrieve.
    pub fn get_min_ts(&self) -> (min_ts: Option<i64>)
        ensures
            min_ts == self.min_ts(),
    {
        self.min_ts
    }

    /// The Unix timestamp of the latest listen to retrieve.
    pub fn get_max_ts(&self) -> (max_ts: Option<i64>)
        ensures
            max_ts == self.max_ts(),
    {
        self.max_ts
    }

    /// The number of listens to retrieve per page.
    pub fn get_count(&self) -> (count: Option<u64>)
        ensures
            count == self.count(),
    {
        self.count
    }

    /// Moves the position behind the page `listens`: the next page ends at
    /// the oldest listen of this one, and an empty page leaves no bound.
    pub fn update_max_ts(&mut self, listens: &Vec<Listen>)
        ensures
            final(self).max_ts() == oldest_timestamp(listens@),
            final(self).user_name() == old(self).user_name(),
            final(self).min_ts() == old(self).min_ts(),
            final(self).count() == old(self).count(),
            final(self).time_range() == old(self).time_range(),
    {
        let mut oldest: Option<i64> = None;
        let mut i: usize = 0;
        while i < listens.len()
            invariant
                i <= listens.len(),
                oldest == oldest_timestamp(listens@.take(i as int)),
            decreases listens.len() - i,
        {
            let at: i64 = listens[i].listened_at;
            proof {
                assert(listens@.take(i + 1).drop_last() =~= listens@.take(i as int));
            }
            oldest = match oldest {
                None => Some(at),
                Some(t) => Some(if t <= at { t } else { at }),
            };
            i += 1;
        }
        proof {
            assert(listens@.take(i as int) =~= listens@);
        }
        self.max_ts = oldest;
    }

    /// Turns the paginator into a reader that hands out listen by listen.
    pub fn into_reader(self) -> (reader: ListenAPIReader)
        ensures
            reader.paginator() == self,
            reader.page().len() == 0,
    {
        ListenAPIReader::new(self)
    }
}

/// Why a paginator could not be built.
#[derive(Clone, Copy, Debug, PartialEq, Eq)]
pub enum ListenAPIPaginatorBuilderError {
    /// No user was named.
    MissingUserName,
}

/// Builds a [`ListenAPIPaginator`] field by field.
#[derive(Debug)]
pub struct ListenAPIPaginatorBuilder {
    user_name: Option<String>,
    min_ts: Option<i64>,
    max_ts: Option<i64>,
    count: Option<u64>,
    time_range: Option<u64>,
}

impl ListenAPIPaginatorBuilder {
    /// The user named so far.
    pub closed spec fn user_name(&self) -> Option<String> {
        self.user_name
    }

    /// The earliest timestamp set so far.
    pub closed spec fn min_ts(&self) -> Option<i64> {
        self.min_ts
    }

    /// The latest timestamp set so far.
    pub closed spec fn max_ts(&self) -> Option<i64> {
        self.max_ts
    }

    /// The page size in force.
    pub closed spec fn count(&self) -> Option<u64> {
        self.count
    }

    /// The time range set so far.
    pub closed spec fn time_range(&self) -> Option<u64> {
        self.time_range
    }

    /// A builder with no user, no bounds and the default page size.
    pub fn new() -> (builder: Self)
        ensures
            builder.user_name() is None,
            builder.min_ts() is None,
            builder.max_ts() is None,
            builder.count() == Some(DEFAULT_PAGE_COUNT),
            builder.time_range() is None,
    {
        ListenAPIPaginatorBuilder {
            user_name: None,
            min_ts: None,
            max_ts: None,
            count: Some(DEFAULT_PAGE_COUNT),
            time_range: None,
        }
    }

    /// Names the target user.
    pub fn with_user_name(self, user_name: String) -> (builder: Self)
        ensures
            builder.user_name() == Some(user_name),
            builder.min_ts() == self.min_ts(),
            builder.max_ts() == self.max_ts(),
            builder.count() == self.count(),
            builder.time_range() == self.time_range(),
    {
        ListenAPIPaginatorBuilder {
            user_name: Some(user_name),
            min_ts: self.min_ts,
            max_ts: self.max_ts,
            count: self.count,
            time_range: self.time_range,
        }
    }

    /// Sets the timestamp of the earliest listen to retrieve.
    pub fn with_min_ts(self, min_ts: i64) -> (builder: Self)
        ensures
            builder.user_name() == self.user_name(),
            builder.min_ts() == Some(min_ts),
            builder.max_ts() == self.max_ts(),
            builder.count() == self.count(),
            builder.time_range() == self.time_range(),
    {
        ListenAPIPaginatorBuilder {
            user_name: self.user_name,
            min_ts: Some(min_ts),
            max_ts: self.max_ts,
            count: self.count,
            time_range: self.time_range,
        }
    }

    /// Sets the timestamp of the latest listen to retrieve.
    pub fn with_max_ts(self, max_ts: i64) -> (builder: Self)
        ensures
            builder.user_name() == self.user_name(),
            builder.min_ts() == self.min_ts(),
            builder.max_ts() == Some(max_ts),
            builder.count() == self.count(),
            builder.time_range() == self.time_range(),
    {
        ListenAPIPaginatorBuilder {
            user_name: self.user_name,
            min_ts: self.min_ts,
            max_ts: Some(max_ts),
            count: self.count,
            time_range: self.time_range,
        }
    }

    /// Sets the number of listens to retrieve per page.
    pub fn with_count(self, count: u64) -> (builder: Self)
        ensures
            builder.user_name() == self.user_name(),
            builder.min_ts() == self.min_ts(),
            builder.max_ts() == self.max_ts(),
            builder.count() == Some(count),
            builder.time_range() == self.time_range(),
    {
        ListenAPIPaginatorBuilder {
            user_name: self.user_name,
            min_ts: self.min_ts,
            max_ts: self.max_ts,
            count: Some(count),
            time_range: self.time_range,
        }
    }

    /// Sets the time range.
    pub fn with_time_range(self, time_range: u64) -> (builder: Self)
        ensures
            builder.user_name() == self.user_name(),
            builder.min_ts() == self.min_ts(),
            builder.max_ts() == self.max_ts(),
            builder.count() == self.count(),
            builder.time_range() == Some(time_range),
    {
        ListenAPIPaginatorBuilder {
            user_name: self.user_name,
            min_ts: self.min_ts,
            max_ts: self.max_ts,
            count: self.count,
            time_range: Some(time_range),
        }
    }

    /// Builds the paginator; fails exactly where no user was named.
    pub fn build(self) -> (built: Result<ListenAPIPaginator, ListenAPIPaginatorBuilderError>)
        ensures
            self.user_name() is None <==> built is Err,
            built matches Ok(paginator) ==> {
                &&& Some(paginator.user_name()) == self.user_name()
                &&& paginator.min_ts() == self.min_ts()
                &&& paginator.max_ts() == self.max_ts()
                &&& paginator.count() == self.count()
                &&& paginator.time_range() == self.time_range()
            },
            built matches Err(error) ==> error == ListenAPIPaginatorBuilderError::MissingUserName,
    {
        match self.user_name {
            Some(user_name) => Ok(
                ListenAPIPaginator {
                    user_name,
                    min_ts: self.min_ts,
                    max_ts: self.max_ts,
                    count: self.count,
                    time_range: self.time_range,
                },
            ),
            None => Err(ListenAPIPaginatorBuilderError::MissingUserName),
        }
    }
}

/// Hands out the listens of a user one by one, page after page.
///
/// The reader never calls the service. When it has run out of listens the
/// caller pulls the next page at the paginator's position and hands it in;
/// a page without listens ends the reading.
#[derive(Debug)]
pub struct ListenAPIReader {
    paginator: ListenAPIPaginator,
    page: Vec<Listen>,
}

impl ListenAPIReader {
    /// The position in the user's listens.
    pub closed spec fn paginator(&self) -> ListenAPIPaginator {
        self.paginator
    }

    /// The listens pulled and not yet handed out; the last is handed out
    /// first.
    pub closed spec fn page(&self) -> Seq<Listen> {
        self.page@
    }

    /// A reader at the position of `paginator`, with no listens pulled.
    pub fn new(paginator: ListenAPIPaginator) -> (reader: Self)
        ensures
            reader.paginator() == paginator,
            reader.page().len() == 0,
    {
        ListenAPIReader { page: Vec::new(), paginator }
    }

    /// The position at which the next page is to be pulled.
    pub fn position(&self) -> (paginator: &ListenAPIPaginator)
        ensures
            *paginator == self.paginator(),
    {
        &self.paginator
    }

    /// Whether a page has to be pulled before a listen can be handed out.
    pub fn needs_page(&self) -> (needed: bool)
        ensures
            needed <==> self.page().len() == 0,
    {
        self.page.len() == 0
    }

    /// Takes in the page `listens` and moves the position behind it.
    pub fn page_pulled(&mut self, listens: Vec<Listen>)
        ensures
            final(self).page() == old(self).page() + listens@,
            final(self).paginator().max_ts() == oldest_timestamp(listens@),
            final(self).paginator().user_name() == old(self).paginator().user_name(),
            final(self).paginator().min_ts() == old(self).paginator().min_ts(),
            final(self).paginator().count() == old(self).paginator().count(),
    {
        self.paginator.update_max_ts(&listens);
        let mut listens = listens;
        self.page.append(&mut listens);
    }

    /// Hands out the last listen pulled, if there is one.
    pub fn next(&mut self) -> (listen: Option<Listen>)
        ensures
            final(self).paginator() == old(self).paginator(),
            old(self).page().len() == 0 ==> listen is None && final(self).page() == old(self).page(),
            old(self).page().len() > 0 ==> listen == Some(old(self).page().last()),
            old(self).page().len() > 0 ==> final(self).page() == old(self).page().drop_last(),
    {
        self.page.pop()
    }
}

} // verus!
