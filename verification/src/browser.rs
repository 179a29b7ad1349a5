//! The candidate browser: a ranked, frozen list of completion entries plus a
//! selection cursor and a sliding display window for the terminal UI.

use vstd::prelude::*;

verus! {

/// Number of completion lines shown in the prompt: the fixed window height.
pub const COMPLETION_LINES: usize = 5;

/// New selection index after moving the cursor by `offset`: the sum is
/// clamped into `[0, len - 1]`, or forced to `0` when the list is empty.
pub open spec fn spec_moved_selection(len: int, sel: int, offset: int) -> int {
    let moved = sel + offset;
    if len == 0 {
        0
    } else if moved < 0 {
        0
    } else if moved > len - 1 {
        len - 1
    } else {
        moved
    }
}

/// New first visible index after a selection move: slide down just far
/// enough to show the selection as the last visible row, slide up to make it
/// the first visible row, else keep the window where it was.
pub open spec fn spec_slid_window(disp: int, lines: int, sel: int) -> int {
    if sel >= disp + lines {
        sel - lines + 1
    } else if sel < disp {
        sel
    } else {
        disp
    }
}

/// Completions generated by completion functions.
pub struct Completions {
    /// Candidate completion entries.
    entries: Vec<String>,
    /// The currently selected entry.
    selected_index: usize,
    /// The number of completion lines in the prompt.
    display_lines: usize,
    /// The beginning of entries to be displayed.
    display_index: usize,
}

impl Completions {
    /// The frozen candidate list, as a sequence of character sequences.
    pub closed spec fn spec_entries(&self) -> Seq<Seq<char>> {
        self.entries.deep_view()
    }

    pub closed spec fn spec_selected_index(&self) -> int {
        self.selected_index as int
    }

    pub closed spec fn spec_display_lines(&self) -> int {
        self.display_lines as int
    }

    pub closed spec fn spec_display_index(&self) -> int {
        self.display_index as int
    }

    /// Browser invariant: the selection stays inside the entry list (or at 0
    /// when the list is empty) and inside the display window.
    pub open spec fn wf(&self) -> bool {
        &&& self.spec_display_lines() == COMPLETION_LINES
        &&& if self.spec_entries().len() == 0 {
            self.spec_selected_index() == 0 && self.spec_display_index() == 0
        } else {
            &&& 0 <= self.spec_display_index() <= self.spec_selected_index()
            &&& self.spec_selected_index() < self.spec_entries().len()
            &&& self.spec_selected_index() < self.spec_display_index() + self.spec_display_lines()
        }
    }

    pub fn new(entries: Vec<String>) -> (r: Completions)
        ensures
            r.wf(),
            r.spec_entries() == entries.deep_view(),
            r.spec_selected_index() == 0,
            r.spec_display_index() == 0,
            r.spec_display_lines() == COMPLETION_LINES,
    {
        Completions { entries, selected_index: 0, display_lines: COMPLETION_LINES, display_index: 0 }
    }

    /// Move to the next/previous entry.
    pub fn move_cursor(&mut self, offset: isize)
        requires
            old(self).wf(),
        ensures
            final(self).wf(),
            final(self).spec_entries() == old(self).spec_entries(),
            final(self).spec_display_lines() == old(self).spec_display_lines(),
            final(self).spec_selected_index() == spec_moved_selection(
                old(self).spec_entries().len() as int,
                old(self).spec_selected_index(),
                offset as int,
            ),
            final(self).spec_display_index() == spec_slid_window(
                old(self).spec_display_index(),
                old(self).spec_display_lines(),
                final(self).spec_selected_index(),
            ),
    {
        let len = self.entries.len();
        let moved: i128 = self.selected_index as i128 + offset as i128;
        let new_sel: usize = if len == 0 {
            0
        } else if moved < 0 {
            0
        } else if moved > (len - 1) as i128 {
            len - 1
        } else {
            moved as usize
        };
        self.selected_index = new_sel;

        if new_sel as u128 >= self.display_index as u128 + self.display_lines as u128 {
            self.display_index = new_sel - (self.display_lines - 1);
        } else if new_sel < self.display_index {
            self.display_index = new_sel;
        }
    }

    /// A copy of the candidate list (entries are frozen after construction).
    pub fn entries(&self) -> (r: Vec<String>)
        ensures
            r.deep_view() == self.spec_entries(),
    {
        let mut r: Vec<String> = Vec::new();
        let mut i: usize = 0;
        while i < self.entries.len()
            invariant
                i <= self.entries@.len(),
                r@ == self.entries@.subrange(0, i as int),
            decreases self.entries@.len() - i,
        {
            r.push(self.entries[i].clone());
            proof {
                assert(r@ =~= self.entries@.subrange(0, i + 1 as int));
            }
            i = i + 1;
        }
        proof {
            assert(r@ =~= self.entries@);
        }
        r
    }

    pub fn len(&self) -> (n: usize)
        ensures
            n == self.spec_entries().len(),
    {
        self.entries.len()
    }

    /// The selected entry, if any.
    pub fn selected(&self) -> (r: Option<String>)
        ensures
            self.spec_selected_index() < self.spec_entries().len() ==> (r matches Some(w)
                && w@ == self.spec_entries()[self.spec_selected_index()]),
            self.spec_selected_index() >= self.spec_entries().len() ==> r is None,
    {
        if self.selected_index < self.entries.len() {
            Some(self.entries[self.selected_index].clone())
        } else {
            None
        }
    }

    pub fn selected_index(&self) -> (n: usize)
        ensures
            n == self.spec_selected_index(),
    {
        self.selected_index
    }

    pub fn display_lines(&self) -> (n: usize)
        ensures
            n == self.spec_display_lines(),
    {
        self.display_lines
    }

    pub fn display_index(&self) -> (n: usize)
        ensures
            n == self.spec_display_index(),
    {
        self.display_index
    }
}

/// Law: after any cursor move on a well-formed browser, the invariant still
/// holds — the new selection sits inside the list (or at 0 when the list is
/// empty) and inside the display window. Holds for arbitrary offsets and for
/// any state reachable by a sequence of moves, since the conclusion
/// re-establishes the premise.
pub proof fn lemma_move_cursor_preserves_invariant(pre: Completions, post: Completions, offset: int)
    requires
        pre.wf(),
        post.spec_entries() == pre.spec_entries(),
        post.spec_display_lines() == pre.spec_display_lines(),
        post.spec_selected_index() == spec_moved_selection(
            pre.spec_entries().len() as int,
            pre.spec_selected_index(),
            offset,
        ),
        post.spec_display_index() == spec_slid_window(
            pre.spec_display_index(),
            pre.spec_display_lines(),
            post.spec_selected_index(),
        ),
    ensures
        post.wf(),
{
}

} // verus!
