//! The generator registry and the dispatch protocol: the first word of the
//! line always gets command-name completion; otherwise the command name
//! selects a registered generator, and path completion is the universal
//! default for argument positions.
//!
//! The collaborators that enumerate raw candidates (directory listing,
//! executable index, registered generators) live outside this core, so
//! dispatch returns the action to take; the built-in path completion is a
//! pure function of the context and an already-obtained listing.

use vstd::prelude::*;
use vstd::string::StrSliceExecFns;
use crate::browser::Completions;
use crate::compgen::{CompGen, spec_ranked};
use crate::context::CompletionContext;

verus! {

/// A mapping from command name to a completion generator, owned by the
/// shell's session object. Generator values are opaque handles chosen by
/// the embedding shell. Registration is additive; the last registration
/// for a name wins.
pub struct Registry<G> {
    entries: Vec<(String, G)>,
}

/// The mapping a registration list denotes: later entries override earlier
/// ones.
pub open spec fn spec_registry_map<G>(entries: Seq<(String, G)>) -> Map<Seq<char>, G>
    decreases entries.len(),
{
    if entries.len() == 0 {
        Map::empty()
    } else {
        spec_registry_map(entries.drop_last()).insert(entries.last().0@, entries.last().1)
    }
}

impl<G> Registry<G> {
    pub closed spec fn spec_map(&self) -> Map<Seq<char>, G> {
        spec_registry_map(self.entries@)
    }

    pub fn new() -> (r: Registry<G>)
        ensures
            r.spec_map() == Map::<Seq<char>, G>::empty(),
    {
        let r = Registry { entries: Vec::new() };
        proof {
            assert(r.entries@ =~= Seq::<(String, G)>::empty());
        }
        r
    }

    /// Register `generator` for the command `name`; a later registration
    /// for the same name replaces the earlier one. There is no removal.
    pub fn register(&mut self, name: String, generator: G)
        ensures
            final(self).spec_map() == old(self).spec_map().insert(name@, generator),
    {
        self.entries.push((name, generator));
        proof {
            assert(self.entries@.drop_last() =~= old(self).entries@);
        }
    }

    /// The generator registered for `name`, if any: the most recent one.
    pub fn lookup(&self, name: &String) -> (r: Option<&G>)
        ensures
            match r {
                Some(g) => self.spec_map().contains_key(name@) && *g == self.spec_map()[name@],
                None => !self.spec_map().contains_key(name@),
            },
    {
        proof {
            assert(self.entries@.take(self.entries@.len() as int) =~= self.entries@);
        }
        let mut i: usize = self.entries.len();
        while i > 0
            invariant
                i <= self.entries@.len(),
                spec_registry_map(self.entries@).contains_key(name@) == spec_registry_map(
                    self.entries@.take(i as int),
                ).contains_key(name@),
                spec_registry_map(self.entries@).contains_key(name@) ==> spec_registry_map(
                    self.entries@.take(i as int),
                )[name@] == spec_registry_map(self.entries@)[name@],
            decreases i,
        {
            i = i - 1;
            proof {
                assert(self.entries@.take(i as int + 1).drop_last() =~= self.entries@.take(
                    i as int,
                ));
                assert(self.entries@.take(i as int + 1).last() == self.entries@[i as int]);
            }
            let pair = &self.entries[i];
            if pair.0 == *name {
                return Some(&pair.1);
            }
        }
        proof {
            assert(self.entries@.take(0) =~= Seq::<(String, G)>::empty());
        }
        None
    }
}

/// The last index of `/` in `w`, or -1 when it has none.
pub open spec fn spec_last_slash(w: Seq<char>) -> int
    decreases w.len(),
{
    if w.len() == 0 {
        -1
    } else if w.last() == '/' {
        w.len() - 1
    } else {
        spec_last_slash(w.drop_last())
    }
}

/// The directory path completion scans, resolved from the current word: a
/// word ending in `/` names the directory itself; a word containing `/`
/// elsewhere names an entry of its parent directory — everything up to the
/// last separator, or the root when nothing is left before it; any other
/// word (or none) means the working directory.
pub open spec fn spec_dir_to_scan(word: Option<Seq<char>>) -> Seq<char> {
    match word {
        Some(w) => {
            if w.len() > 0 && w.last() == '/' {
                w
            } else if spec_last_slash(w) > 0 {
                w.take(spec_last_slash(w))
            } else if spec_last_slash(w) == 0 {
                seq!['/']
            } else {
                seq!['.']
            }
        },
        None => seq!['.'],
    }
}

/// Resolve the directory that path completion lists for this current word.
pub fn dir_to_scan(word: &Option<String>) -> (r: String)
    ensures
        r@ == spec_dir_to_scan(word.deep_view()),
{
    match word {
        Some(w) => {
            proof {
                assert(word.deep_view() == Some(w.deep_view()));
            }
            let len = w.as_str().unicode_len();
            if len > 0 && w.as_str().get_char(len - 1) == '/' {
                return w.clone();
            }
            proof {
                assert(w@.take(len as int) =~= w@);
            }
            let mut k: usize = len;
            while k > 0
                invariant
                    k <= len,
                    len == w@.len(),
                    word.deep_view() == Some(w@),
                    !(w@.len() > 0 && w@.last() == '/'),
                    spec_last_slash(w@) == spec_last_slash(w@.take(k as int)),
                decreases k,
            {
                k = k - 1;
                proof {
                    assert(w@.take(k as int + 1).drop_last() =~= w@.take(k as int));
                    assert(w@.take(k as int + 1).last() == w@[k as int]);
                }
                if w.as_str().get_char(k) == '/' {
                    proof {
                        assert(w@.take(k as int + 1).len() == k + 1);
                        assert(w@.take(k as int + 1).last() == '/');
                        assert(spec_last_slash(w@.take(k as int + 1)) == k as int);
                        assert(spec_last_slash(w@) == k as int);
                    }
                    if k == 0 {
                        let root = String::from_str("/");
                        proof {
                            reveal_strlit("/");
                            assert(root@ =~= seq!['/']);
                        }
                        return root;
                    }
                    let parent = w.as_str().substring_char(0, k).to_owned();
                    proof {
                        assert(parent@ =~= w@.take(k as int));
                    }
                    return parent;
                }
            }
            proof {
                assert(w@.take(0) =~= Seq::<char>::empty());
            }
            let dot = String::from_str(".");
            proof {
                reveal_strlit(".");
                assert(dot@ =~= seq!['.']);
            }
            dot
        },
        None => {
            let dot = String::from_str(".");
            proof {
                reveal_strlit(".");
                assert(dot@ =~= seq!['.']);
            }
            dot
        },
    }
}

/// The query handed to the executable-index collaborator for command-name
/// completion: the current word, or the empty string when there is none.
pub open spec fn spec_cmd_query(ctx: CompletionContext) -> Seq<char> {
    match ctx.spec_current_word() {
        Some(w) => w,
        None => Seq::empty(),
    }
}

/// Command-name completion delegates candidate enumeration to the
/// executable-index collaborator; this computes the query passed to it.
pub fn cmd_completion_query(ctx: &CompletionContext) -> (q: String)
    ensures
        q@ == spec_cmd_query(*ctx),
{
    match ctx.current_word() {
        Some(w) => w,
        None => String::new(),
    }
}

/// The candidate set path completion yields for `ctx` on a directory
/// listing: the listing ranked against the whole current word.
pub open spec fn spec_path_completion_entries(
    ctx: CompletionContext,
    listing: Seq<Seq<char>>,
) -> Seq<Seq<char>> {
    spec_ranked(listing, ctx.spec_current_word())
}

/// Path completion on an already-obtained directory listing (the directory
/// `dir_to_scan` names; a missing or unreadable directory degrades to an
/// empty listing, never an error). The query ranked against is the whole
/// current word, directory qualification included.
pub fn path_completion(ctx: &CompletionContext, listing: Vec<String>) -> (r: Completions)
    ensures
        r.wf(),
        r.spec_entries() == spec_path_completion_entries(*ctx, listing.deep_view()),
        r.spec_selected_index() == 0,
        r.spec_display_index() == 0,
{
    CompGen::new().entries(listing).search(ctx.current_word()).build()
}

/// The decision dispatch takes for a context: which collaborator supplies
/// the candidates, and with what arguments.
#[allow(inconsistent_fields)]
pub enum CompletionAction<'a, G> {
    /// The cursor is on the command name: ask the executable index with
    /// this query.
    CmdCompletion { query: String },
    /// A generator is registered for the command name: invoke it on the
    /// full context.
    Generator { generator: &'a G },
    /// Default: list `dir` and hand the listing to `path_completion` with
    /// this context (whose current word is `query`).
    PathCompletion { dir: String, query: Option<String> },
}

/// Dispatch rule: the first word always gets command-name completion,
/// regardless of registry contents; otherwise the first word of the line
/// selects a registered generator, and on a miss path completion is the
/// default.
pub fn call_completion<'a, G>(ctx: &CompletionContext, registry: &'a Registry<G>) -> (r:
    CompletionAction<'a, G>)
    requires
        ctx.current_word_index != 0 ==> ctx.words@.len() > 0,
    ensures
        match r {
            CompletionAction::CmdCompletion { query } => ctx.current_word_index == 0 && query@
                == spec_cmd_query(*ctx),
            CompletionAction::Generator { generator } => ctx.current_word_index != 0
                && registry.spec_map().contains_key(ctx.words.deep_view()[0]) && *generator
                == registry.spec_map()[ctx.words.deep_view()[0]],
            CompletionAction::PathCompletion { dir, query } => ctx.current_word_index != 0
                && !registry.spec_map().contains_key(ctx.words.deep_view()[0]) && dir@
                == spec_dir_to_scan(ctx.spec_current_word()) && query.deep_view()
                == ctx.spec_current_word(),
        },
{
    if ctx.current_word_index == 0 {
        // The cursor is at the first word, namely, the command.
        CompletionAction::CmdCompletion { query: cmd_completion_query(ctx) }
    } else {
        match registry.lookup(&ctx.words[0]) {
            Some(generator) => CompletionAction::Generator { generator },
            None => {
                let query = ctx.current_word();
                let dir = dir_to_scan(&query);
                CompletionAction::PathCompletion { dir, query }
            },
        }
    }
}

/// Law: dispatch default — with an empty registry no command name can
/// select a generator, so an argument-position context falls back to path
/// completion, and the candidate set built from any listing is exactly the
/// one direct path completion yields for an equivalent context.
pub proof fn lemma_dispatch_default<G>(
    registry: Registry<G>,
    ctx: CompletionContext,
    listing: Seq<Seq<char>>,
)
    requires
        registry.spec_map() == Map::<Seq<char>, G>::empty(),
        ctx.current_word_index == 1,
        ctx.words@.len() > 0,
    ensures
        !registry.spec_map().contains_key(ctx.words.deep_view()[0]),
        spec_ranked(listing, ctx.spec_current_word()) == spec_path_completion_entries(
            ctx,
            listing,
        ),
{
}

} // verus!
