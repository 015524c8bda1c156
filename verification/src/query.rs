//! Search queries against a mod index, assembled through a builder.

use vstd::prelude::*;

verus! {

/// The ordering a search asks its results to come in.
#[derive(Debug, Clone, Copy, PartialEq, Eq, Structural)]
pub enum IndexBy {
    Relevance,
    Downloads,
    Follows,
    Newest,
    Updated,
}

impl Default for IndexBy {
    fn default() -> (r: Self)
        ensures
            r == IndexBy::Relevance,
    {
        IndexBy::Relevance
    }
}

/// Number of results a query asks for when the builder was given no limit.
pub const DEFAULT_LIMIT: u8 = 10;

/// Limits at or above this bound are ignored by the builder.
pub const LIMIT_BOUND: u8 = 100;

/// Whether a number is zero; zero-valued paging fields are left out when a
/// query is written out.
pub fn is_zero(num: &u8) -> (r: bool)
    ensures
        r == (*num == 0),
{
    *num == 0
}

/// A finished search query.
#[derive(Debug)]
pub struct ProjectQuery {
    pub query: String,
    pub facets: Vec<Vec<String>>,
    pub index: IndexBy,
    pub offset: u8,
    pub limit: u8,
}

/// Collects the parts of a search query; a part that was never given falls
/// back to its default when the query is built.
#[derive(Debug)]
pub struct ProjectQueryBuilder {
    pub query: Option<String>,
    pub facets: Option<Vec<Vec<String>>>,
    pub index: Option<IndexBy>,
    pub offset: Option<u8>,
    pub limit: Option<u8>,
}

impl ProjectQueryBuilder {
    /// The text the builder holds, if any was given.
    pub open spec fn query_text(self) -> Option<Seq<char>> {
        match self.query {
            Some(q) => Some(q@),
            None => None,
        }
    }

    /// A builder in which nothing is set.
    pub fn new() -> (r: Self)
        ensures
            r.query.is_none(),
            r.facets.is_none(),
            r.index.is_none(),
            r.offset.is_none(),
            r.limit.is_none(),
    {
        ProjectQueryBuilder { query: None, facets: None, index: None, offset: None, limit: None }
    }

    /// Sets the text to search for.
    pub fn with_query(self, query: &str) -> (r: Self)
        ensures
            r.query_text() == Some(query@),
            r.facets == self.facets,
            r.index == self.index,
            r.offset == self.offset,
            r.limit == self.limit,
    {
        let mut next = self;
        next.query = Some(String::from_str(query));
        next
    }

    /// Sets the text to search for to what `query` prints as.
    pub fn query<S: core::fmt::Display>(self, query: S) -> (r: Self)
        ensures
            exists|text: String|
                vstd::string::to_string_from_display_ensures::<S>(&query, text)
                    && r.query_text() == Some(text@),
            r.facets == self.facets,
            r.index == self.index,
            r.offset == self.offset,
            r.limit == self.limit,
    {
        let text = query.to_string();
        self.with_query(text.as_str())
    }

    /// Facet filters are accepted for forward compatibility and currently
    /// leave the builder exactly as it was.
    pub fn facets<S: core::fmt::Display>(self, facets: S) -> (r: Self)
        ensures
            r == self,
    {
        self
    }

    /// Sets how many results the search skips.
    pub fn offset(self, offset: u8) -> (r: Self)
        ensures
            r.offset == Some(offset),
            r.query == self.query,
            r.facets == self.facets,
            r.index == self.index,
            r.limit == self.limit,
    {
        let mut next = self;
        next.offset = Some(offset);
        next
    }

    /// Sets the ordering of the results.
    pub fn index(self, index: IndexBy) -> (r: Self)
        ensures
            r.index == Some(index),
            r.query == self.query,
            r.facets == self.facets,
            r.offset == self.offset,
            r.limit == self.limit,
    {
        let mut next = self;
        next.index = Some(index);
        next
    }

    /// Sets the number of results asked for. A limit of `LIMIT_BOUND` or more
    /// is not kept: the builder then holds no limit at all.
    pub fn limit(self, limit: u8) -> (r: Self)
        ensures
            r.limit == (if limit < LIMIT_BOUND { Some(limit) } else { None }),
            r.query == self.query,
            r.facets == self.facets,
            r.index == self.index,
            r.offset == self.offset,
    {
        let mut next = self;
        next.limit = if limit < LIMIT_BOUND { Some(limit) } else { None };
        next
    }

    /// Builds the query: empty text, no facets, relevance ordering, offset 0
    /// and `DEFAULT_LIMIT` results stand in for whatever was not set.
    pub fn build(self) -> (r: ProjectQuery)
        ensures
            r.query@ == (match self.query_text() {
                Some(q) => q,
                None => Seq::<char>::empty(),
            }),
            match self.facets {
                Some(f) => r.facets == f,
                None => r.facets@.len() == 0,
            },
            r.index == (match self.index {
                Some(i) => i,
                None => IndexBy::Relevance,
            }),
            r.offset == (match self.offset {
                Some(o) => o,
                None => 0u8,
            }),
            r.limit == (match self.limit {
                Some(l) => l,
                None => DEFAULT_LIMIT,
            }),
    {
        let query = match self.query {
            Some(q) => q,
            None => String::new(),
        };
        let facets = match self.facets {
            Some(f) => f,
            None => Vec::new(),
        };
        let index = match self.index {
            Some(i) => i,
            None => IndexBy::default(),
        };
        let offset = match self.offset {
            Some(o) => o,
            None => 0u8,
        };
        let limit = match self.limit {
            Some(l) => l,
            None => DEFAULT_LIMIT,
        };
        ProjectQuery { query, facets, index, offset, limit }
    }
}

impl Default for ProjectQueryBuilder {
    fn default() -> (r: Self)
        ensures
            r.query.is_none(),
            r.facets.is_none(),
            r.index.is_none(),
            r.offset.is_none(),
            r.limit.is_none(),
    {
        ProjectQueryBuilder::new()
    }
}

} // verus!
