//! The ranking collaborator: scores and filters an ordered candidate list
//! against a query fragment. Matching is fuzzy-subsequence: a candidate
//! matches when the query's characters appear in it in order, not
//! necessarily adjacent; matching candidates keep their source order.

use vstd::prelude::*;
use vstd::string::StrSliceExecFns;

verus! {

/// `query` matches `entry` when the characters of `query` appear in `entry`
/// in order.
pub open spec fn spec_fuzzy_matches(query: Seq<char>, entry: Seq<char>) -> bool
    decreases query.len() + entry.len(),
{
    if query.len() == 0 {
        true
    } else if entry.len() == 0 {
        false
    } else if query[0] == entry[0] {
        spec_fuzzy_matches(query.skip(1), entry.skip(1))
    } else {
        spec_fuzzy_matches(query, entry.skip(1))
    }
}

/// The entries matching `query`, in their original order.
pub open spec fn spec_search(entries: Seq<Seq<char>>, query: Seq<char>) -> Seq<Seq<char>>
    decreases entries.len(),
{
    if entries.len() == 0 {
        Seq::empty()
    } else {
        let rest = spec_search(entries.drop_last(), query);
        if spec_fuzzy_matches(query, entries.last()) {
            rest.push(entries.last())
        } else {
            rest
        }
    }
}

/// Greedy two-pointer subsequence test; greedy matching is complete for the
/// subsequence relation, which the loop invariant carries step by step.
pub fn fuzzy_matches(query: &str, entry: &str) -> (b: bool)
    ensures
        b == spec_fuzzy_matches(query@, entry@),
{
    let qlen = query.unicode_len();
    let elen = entry.unicode_len();
    let mut qi: usize = 0;
    let mut ei: usize = 0;
    proof {
        assert(query@.skip(0) =~= query@);
        assert(entry@.skip(0) =~= entry@);
    }
    while qi < qlen && ei < elen
        invariant
            qi <= qlen,
            ei <= elen,
            qlen == query@.len(),
            elen == entry@.len(),
            spec_fuzzy_matches(query@, entry@) == spec_fuzzy_matches(
                query@.skip(qi as int),
                entry@.skip(ei as int),
            ),
        decreases elen - ei,
    {
        let ghost qs = query@.skip(qi as int);
        let ghost es = entry@.skip(ei as int);
        let qc = query.get_char(qi);
        let ec = entry.get_char(ei);
        proof {
            assert(qs[0] == query@[qi as int]);
            assert(es[0] == entry@[ei as int]);
            assert(qs.skip(1) =~= query@.skip(qi as int + 1));
            assert(es.skip(1) =~= entry@.skip(ei as int + 1));
        }
        if qc == ec {
            proof {
                assert(spec_fuzzy_matches(qs, es) == spec_fuzzy_matches(qs.skip(1), es.skip(1)));
            }
            qi = qi + 1;
        } else {
            proof {
                assert(spec_fuzzy_matches(qs, es) == spec_fuzzy_matches(qs, es.skip(1)));
            }
        }
        ei = ei + 1;
    }
    proof {
        if qi == qlen {
            assert(query@.skip(qi as int).len() == 0);
            assert(spec_fuzzy_matches(query@.skip(qi as int), entry@.skip(ei as int)));
        } else {
            assert(entry@.skip(ei as int) =~= Seq::<char>::empty());
            assert(!spec_fuzzy_matches(query@.skip(qi as int), entry@.skip(ei as int)));
        }
    }
    qi == qlen
}

/// An ordered, immutable candidate list offering fuzzy search.
pub struct FuzzyVec {
    entries: Vec<String>,
}

impl FuzzyVec {
    pub closed spec fn spec_entries(&self) -> Seq<Seq<char>> {
        self.entries.deep_view()
    }

    pub fn from_vec(entries: Vec<String>) -> (r: FuzzyVec)
        ensures
            r.spec_entries() == entries.deep_view(),
    {
        FuzzyVec { entries }
    }

    /// The entries matching `query`, in their original order; with an empty
    /// query every entry matches.
    pub fn search(&self, query: &str) -> (r: Vec<String>)
        ensures
            r.deep_view() == spec_search(self.spec_entries(), query@),
    {
        let mut r: Vec<String> = Vec::new();
        let mut i: usize = 0;
        while i < self.entries.len()
            invariant
                i <= self.entries@.len(),
                r.deep_view() == spec_search(self.entries.deep_view().take(i as int), query@),
            decreases self.entries@.len() - i,
        {
            let ghost pre = self.entries.deep_view().take(i as int);
            let ghost cur = self.entries.deep_view().take(i as int + 1);
            proof {
                assert(cur.drop_last() =~= pre);
                assert(cur.last() == self.entries.deep_view()[i as int]);
            }
            if fuzzy_matches(query, self.entries[i].as_str()) {
                r.push(self.entries[i].clone());
                proof {
                    assert(r.deep_view() =~= spec_search(pre, query@).push(
                        self.entries.deep_view()[i as int],
                    ));
                }
            }
            i = i + 1;
        }
        proof {
            assert(self.entries.deep_view().take(self.entries@.len() as int)
                =~= self.entries.deep_view());
        }
        r
    }
}

} // verus!
