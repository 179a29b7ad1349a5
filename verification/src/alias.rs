//! The alias store: user-defined word substitutions, keyed by name.
//! Lookup is exact-match; a later definition overwrites an earlier one;
//! definitions that fail to parse are silently ignored.

use vstd::prelude::*;
use vstd::string::StrSliceExecFns;
use crate::status::ExitStatus;
use crate::strutil::{chars_to_string, clone_string_vec};

verus! {

/// A named substitution: `name` expands to the word sequence `words`.
pub struct Alias {
    pub name: String,
    pub words: Vec<String>,
}

/// An alias definition that cannot be parsed: no `=`, or nothing before it.
#[derive(Debug)]
pub struct ParseError;

/// One step of splitting on spaces: a space finalizes a nonempty segment,
/// any other character extends it.
pub open spec fn split_step(acc: (Seq<Seq<char>>, Seq<char>), ch: char) -> (
    Seq<Seq<char>>,
    Seq<char>,
) {
    if ch == ' ' {
        if acc.1.len() > 0 {
            (acc.0.push(acc.1), Seq::empty())
        } else {
            acc
        }
    } else {
        (acc.0, acc.1.push(ch))
    }
}

pub open spec fn split_prefix(s: Seq<char>, n: int) -> (Seq<Seq<char>>, Seq<char>)
    decreases n,
{
    if n <= 0 {
        (Seq::empty(), Seq::empty())
    } else {
        split_step(split_prefix(s, n - 1), s[n - 1])
    }
}

/// The space-separated words of `s`, empty segments skipped.
pub open spec fn spec_split_words(s: Seq<char>) -> Seq<Seq<char>> {
    let acc = split_prefix(s, s.len() as int);
    if acc.1.len() > 0 {
        acc.0.push(acc.1)
    } else {
        acc.0
    }
}

/// The index of the first `=` in `s`, or `s.len()` when it has none.
pub open spec fn spec_eq_index(s: Seq<char>) -> int
    decreases s.len(),
{
    if s.len() == 0 {
        0
    } else if s[0] == '=' {
        0
    } else {
        1 + spec_eq_index(s.skip(1))
    }
}

/// A forward scan that stops at the first `=` finds `spec_eq_index`.
proof fn lemma_eq_index_from_scan(s: Seq<char>, i: int)
    requires
        0 <= i <= s.len(),
        forall|k: int| 0 <= k < i ==> s[k] != '=',
        i < s.len() ==> s[i] == '=',
    ensures
        spec_eq_index(s) == i,
    decreases i,
{
    if s.len() == 0 {
    } else if i == 0 {
    } else {
        assert(s[0] != '=');
        let t = s.skip(1);
        assert forall|k: int| 0 <= k < i - 1 implies t[k] != '=' by {
            assert(t[k] == s[k + 1]);
        }
        if i < s.len() {
            assert(t[i - 1] == s[i]);
        }
        lemma_eq_index_from_scan(t, i - 1);
    }
}

/// The parse of a definition statement `name=word-sequence`: `name` is
/// everything before the first `=` and must be nonempty; what follows the
/// `=` is split into words on spaces. A line without `=`, or with nothing
/// before it, does not parse.
pub open spec fn spec_parse_alias(line: Seq<char>) -> Option<(Seq<char>, Seq<Seq<char>>)> {
    let i = spec_eq_index(line);
    if 0 < i && i < line.len() {
        Some((line.take(i), spec_split_words(line.skip(i + 1))))
    } else {
        None
    }
}

/// Parses a definition statement of the form `name=word-sequence`.
pub fn parse_alias(line: &str) -> (r: Result<Alias, ParseError>)
    ensures
        match r {
            Ok(alias) => spec_parse_alias(line@) matches Some(p) && alias.name@ == p.0
                && alias.words.deep_view() == p.1,
            Err(_) => spec_parse_alias(line@) is None,
        },
{
    let len = line.unicode_len();
    let mut i: usize = 0;
    while i < len
        invariant_except_break
            i <= len,
            len == line@.len(),
            forall|k: int| 0 <= k < i ==> line@[k] != '=',
        ensures
            i <= len,
            len == line@.len(),
            forall|k: int| 0 <= k < i ==> line@[k] != '=',
            i < len ==> line@[i as int] == '=',
        decreases len - i,
    {
        if line.get_char(i) == '=' {
            break ;
        }
        i = i + 1;
    }
    proof {
        lemma_eq_index_from_scan(line@, i as int);
    }
    if i == 0 || i >= len {
        return Err(ParseError);
    }

    let name = line.substring_char(0, i).to_owned();
    proof {
        assert(name@ =~= line@.take(i as int));
    }

    let ghost tail = line@.skip(i as int + 1);
    let mut words: Vec<String> = Vec::new();
    let mut cur: Vec<char> = Vec::new();
    let mut j: usize = i + 1;
    proof {
        assert(words.deep_view() =~= split_prefix(tail, 0).0);
        assert(cur@ =~= split_prefix(tail, 0).1);
    }
    while j < len
        invariant
            i as int + 1 <= j as int <= len,
            len == line@.len(),
            tail == line@.skip(i as int + 1),
            words.deep_view() == split_prefix(tail, j - i - 1).0,
            cur@ == split_prefix(tail, j - i - 1).1,
        decreases len - j,
    {
        let ghost acc0 = split_prefix(tail, j - i - 1);
        let ch = line.get_char(j);
        proof {
            assert(tail[j - i - 1] == line@[j as int]);
            assert(split_prefix(tail, j - i) == split_step(acc0, tail[j - i - 1]));
        }
        if ch == ' ' {
            if cur.len() > 0 {
                let finished = chars_to_string(&cur);
                words.push(finished);
                cur = Vec::new();
                proof {
                    assert(words.deep_view() =~= acc0.0.push(acc0.1));
                    assert(cur@ =~= Seq::<char>::empty());
                }
            }
        } else {
            cur.push(ch);
        }
        j = j + 1;
    }
    proof {
        assert(tail.len() == len - i - 1);
    }
    if cur.len() > 0 {
        let finished = chars_to_string(&cur);
        words.push(finished);
        proof {
            assert(words.deep_view() =~= split_prefix(tail, tail.len() as int).0.push(
                split_prefix(tail, tail.len() as int).1,
            ));
        }
    }
    Ok(Alias { name, words })
}

/// The mapping an entry list denotes: later entries override earlier ones.
pub open spec fn spec_alias_map(entries: Seq<(String, Vec<String>)>) -> Map<
    Seq<char>,
    Seq<Seq<char>>,
>
    decreases entries.len(),
{
    if entries.len() == 0 {
        Map::empty()
    } else {
        spec_alias_map(entries.drop_last()).insert(
            entries.last().0@,
            entries.last().1.deep_view(),
        )
    }
}

/// The alias table: process lifetime in the shell, held here as an owned,
/// lifetime-scoped object, initialized empty and never torn down.
pub struct AliasStore {
    entries: Vec<(String, Vec<String>)>,
}

impl AliasStore {
    pub closed spec fn spec_map(&self) -> Map<Seq<char>, Seq<Seq<char>>> {
        spec_alias_map(self.entries@)
    }

    pub fn new() -> (r: AliasStore)
        ensures
            r.spec_map() == Map::<Seq<char>, Seq<Seq<char>>>::empty(),
    {
        let r = AliasStore { entries: Vec::new() };
        proof {
            assert(r.entries@ =~= Seq::<(String, Vec<String>)>::empty());
        }
        r
    }

    /// Law: overwrite — parses a definition and stores it, replacing any
    /// prior definition for that name; a line that fails to parse is
    /// silently ignored and leaves the store unchanged.
    pub fn add_alias(&mut self, line: &str)
        ensures
            match spec_parse_alias(line@) {
                Some(p) => final(self).spec_map() == old(self).spec_map().insert(p.0, p.1),
                None => final(self).spec_map() == old(self).spec_map(),
            },
    {
        match parse_alias(line) {
            Ok(alias) => {
                self.entries.push((alias.name, alias.words));
                proof {
                    assert(self.entries@.drop_last() =~= old(self).entries@);
                }
            },
            Err(_) => {},
        }
    }

    /// The word sequence `alias` expands to, if one is defined.
    pub fn lookup_alias(&self, alias: &str) -> (r: Option<Vec<String>>)
        ensures
            match r {
                Some(ws) => self.spec_map().contains_key(alias@) && ws.deep_view()
                    == self.spec_map()[alias@],
                None => !self.spec_map().contains_key(alias@),
            },
    {
        proof {
            assert(self.entries@.take(self.entries@.len() as int) =~= self.entries@);
        }
        let key = alias.to_owned();
        let mut i: usize = self.entries.len();
        while i > 0
            invariant
                i <= self.entries@.len(),
                key@ == alias@,
                spec_alias_map(self.entries@).contains_key(alias@) == spec_alias_map(
                    self.entries@.take(i as int),
                ).contains_key(alias@),
                spec_alias_map(self.entries@).contains_key(alias@) ==> spec_alias_map(
                    self.entries@.take(i as int),
                )[alias@] == spec_alias_map(self.entries@)[alias@],
            decreases i,
        {
            i = i - 1;
            proof {
                assert(self.entries@.take(i as int + 1).drop_last() =~= self.entries@.take(
                    i as int,
                ));
                assert(self.entries@.take(i as int + 1).last() == self.entries@[i as int]);
            }
            let pair = &self.entries[i];
            if pair.0 == key {
                return Some(clone_string_vec(&pair.1));
            }
        }
        proof {
            assert(self.entries@.take(0) =~= Seq::<(String, Vec<String>)>::empty());
        }
        None
    }

    /// The alias builtin: defines the alias given as its first argument
    /// (the word after the command name), and always exits with status 0.
    pub fn alias_command(&mut self, argv: &Vec<String>) -> (r: ExitStatus)
        ensures
            r == ExitStatus::ExitedWith(0i32),
            argv@.len() > 1 ==> (match spec_parse_alias(argv@[1]@) {
                Some(p) => final(self).spec_map() == old(self).spec_map().insert(p.0, p.1),
                None => final(self).spec_map() == old(self).spec_map(),
            }),
            argv@.len() <= 1 ==> final(self).spec_map() == old(self).spec_map(),
    {
        if argv.len() > 1 {
            self.add_alias(argv[1].as_str());
        }
        ExitStatus::ExitedWith(0)
    }
}

/// Law: a later definition for a name overwrites the earlier one — after
/// defining `name` twice, lookup sees only the second word sequence.
pub proof fn lemma_alias_overwrite(
    m: Map<Seq<char>, Seq<Seq<char>>>,
    name: Seq<char>,
    w1: Seq<Seq<char>>,
    w2: Seq<Seq<char>>,
)
    ensures
        m.insert(name, w1).insert(name, w2).contains_key(name),
        m.insert(name, w1).insert(name, w2)[name] == w2,
{
}

} // verus!
