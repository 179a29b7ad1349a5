//! The `Completions` builder: assembles a raw candidate list and an
//! optional query fragment, ranks the candidates against the query through
//! the fuzzy-matching collaborator, and freezes the result into a browser.

use vstd::prelude::*;
use crate::browser::Completions;
use crate::fuzzy::{FuzzyVec, spec_search};

verus! {

/// What `build` freezes into the browser: the raw entries verbatim when no
/// query is set, else exactly the entries matching the query, in order.
pub open spec fn spec_ranked(entries: Seq<Seq<char>>, query: Option<Seq<char>>) -> Seq<Seq<char>> {
    match query {
        Some(q) => spec_search(entries, q),
        None => entries,
    }
}

/// The `Completion` builder.
pub struct CompGen {
    entries: Vec<String>,
    query: Option<String>,
}

impl CompGen {
    pub closed spec fn spec_entries(&self) -> Seq<Seq<char>> {
        self.entries.deep_view()
    }

    pub closed spec fn spec_query(&self) -> Option<Seq<char>> {
        self.query.deep_view()
    }

    pub fn new() -> (r: CompGen)
        ensures
            r.spec_entries() == Seq::<Seq<char>>::empty(),
            r.spec_query() is None,
    {
        let r = CompGen { entries: Vec::new(), query: None };
        proof {
            assert(r.entries.deep_view() =~= Seq::<Seq<char>>::empty());
        }
        r
    }

    /// Set the raw candidate list, in the order given by its source.
    pub fn entries(self, entries: Vec<String>) -> (r: CompGen)
        ensures
            r.spec_entries() == entries.deep_view(),
            r.spec_query() == self.spec_query(),
    {
        CompGen { entries, ..self }
    }

    /// Set the query fragment: the literal current-word text, never trimmed
    /// or escaped.
    pub fn search(self, query: Option<String>) -> (r: CompGen)
        ensures
            r.spec_entries() == self.spec_entries(),
            r.spec_query() == query.deep_view(),
    {
        CompGen { query, ..self }
    }

    /// Rank the entries against the query, if one was set, and freeze the
    /// result into a fresh browser.
    pub fn build(self) -> (r: Completions)
        ensures
            r.wf(),
            r.spec_entries() == spec_ranked(self.spec_entries(), self.spec_query()),
            r.spec_selected_index() == 0,
            r.spec_display_index() == 0,
    {
        let results = match self.query {
            Some(query) => FuzzyVec::from_vec(self.entries).search(query.as_str()),
            None => self.entries,
        };
        Completions::new(results)
    }
}

} // verus!
