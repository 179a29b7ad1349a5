//! Context extraction: a quote-aware forward scan that splits the input line
//! at a cursor position into words and identifies the word under the cursor.
//!
//! The scan is deliberately simple rather than a full shell tokenizer: any
//! character that is neither a word character nor a glob wildcard resets
//! everything accumulated so far, so context never crosses a shell
//! metacharacter such as a pipe.

use vstd::prelude::*;
use vstd::string::StrSliceExecFns;
use vstd::utf8::encode_utf8;
use crate::strutil::chars_to_string;

verus! {

/// Word characters are everything but whitespace, quotes, globs and shell
/// metacharacters. Globs (`*`, `?`) are not word characters, but the scan
/// accepts them through an explicit exception.
pub open spec fn spec_is_valid_word_char(ch: char) -> bool {
    !(ch == ' ' || ch == '\t' || ch == '\n' || ch == '\r' || ch == '|' || ch == '&' || ch == ';'
        || ch == '(' || ch == ')' || ch == '<' || ch == '>' || ch == '`' || ch == '$' || ch == '"'
        || ch == '\'' || ch == '*' || ch == '?')
}

/// Character-validity predicate consumed by the context extractor.
pub fn is_valid_word_char(ch: char) -> (b: bool)
    ensures
        b == spec_is_valid_word_char(ch),
{
    !(ch == ' ' || ch == '\t' || ch == '\n' || ch == '\r' || ch == '|' || ch == '&' || ch == ';'
        || ch == '(' || ch == ')' || ch == '<' || ch == '>' || ch == '`' || ch == '$' || ch == '"'
        || ch == '\'' || ch == '*' || ch == '?')
}

/// A word buffer with one escaped quote resolved: one trailing backslash is
/// dropped and a literal quote appended in its place.
pub open spec fn unescape_quote(word: Seq<char>) -> Seq<char> {
    if word.len() > 0 && word.last() == '\\' {
        word.drop_last().push('"')
    } else {
        word.push('"')
    }
}

/// State of the scan before the cursor: the words already finalized, the
/// in-progress word buffer, the quoting flag, the previous character, and
/// the character offset at which the in-progress word starts.
pub struct ScanState {
    pub words: Seq<Seq<char>>,
    pub word: Seq<char>,
    pub in_string: bool,
    pub prev: char,
    pub word_offset: int,
}

pub open spec fn scan_init() -> ScanState {
    ScanState {
        words: Seq::empty(),
        word: Seq::empty(),
        in_string: false,
        prev: '\x00',
        word_offset: 0,
    }
}

/// One step of the scan before the cursor, on the character `ch` standing at
/// offset `pos`:
/// - inside quotes, a quote preceded by a backslash becomes a literal quote
///   in the buffer (one trailing backslash is stripped);
/// - otherwise a quote toggles the quoting flag and is not buffered;
/// - outside quotes, a space finalizes the buffer into `words` and the next
///   word starts just past it;
/// - outside quotes, a character that is neither a word character nor `*`
///   nor `?` resets the whole scan;
/// - every other character is appended to the buffer.
pub open spec fn scan_step(st: ScanState, ch: char, pos: int) -> ScanState {
    if st.in_string && st.prev == '\\' && ch == '"' {
        ScanState { word: unescape_quote(st.word), prev: ch, ..st }
    } else if st.in_string && ch == '"' {
        ScanState { in_string: false, prev: ch, ..st }
    } else if !st.in_string && ch == '"' {
        ScanState { in_string: true, prev: ch, ..st }
    } else if !st.in_string && ch == ' ' {
        ScanState {
            words: st.words.push(st.word),
            word: Seq::empty(),
            word_offset: pos + 1,
            prev: ch,
            ..st
        }
    } else if !st.in_string && !spec_is_valid_word_char(ch) && ch != '*' && ch != '?' {
        ScanState {
            words: Seq::empty(),
            word: Seq::empty(),
            word_offset: pos + 1,
            prev: ch,
            ..st
        }
    } else {
        ScanState { word: st.word.push(ch), prev: ch, ..st }
    }
}

/// The scan state after the first `n` characters of `line`.
pub open spec fn scan_prefix(line: Seq<char>, n: int) -> ScanState
    decreases n,
{
    if n <= 0 {
        scan_init()
    } else {
        scan_step(scan_prefix(line, n - 1), line[n - 1], n - 1)
    }
}

/// The scan after the cursor: it continues filling the word buffer from
/// character `i` on, with the quoting flag live but the previous character
/// frozen at its before-cursor value, and stops at the first character that
/// would end the current word outside quotes.
pub open spec fn scan_tail(
    word: Seq<char>,
    in_string: bool,
    prev: char,
    line: Seq<char>,
    i: int,
) -> Seq<char>
    decreases line.len() - i,
{
    if i < 0 || i >= line.len() {
        word
    } else {
        let ch = line[i];
        if in_string && prev == '\\' && ch == '"' {
            scan_tail(unescape_quote(word), in_string, prev, line, i + 1)
        } else if in_string && ch == '"' {
            scan_tail(word, false, prev, line, i + 1)
        } else if !in_string && ch == '"' {
            scan_tail(word, true, prev, line, i + 1)
        } else if !in_string && !spec_is_valid_word_char(ch) && ch != '*' && ch != '?' {
            word
        } else {
            scan_tail(word.push(ch), in_string, prev, line, i + 1)
        }
    }
}

/// The mathematical value of an extracted context.
#[verifier::ext_equal]
pub struct SpecContext {
    pub words: Seq<Seq<char>>,
    pub current_word_index: int,
    pub line: Seq<char>,
    pub current_word_offset: int,
    pub current_word_len: int,
    pub user_cursor: int,
}

/// The context extracted from `line` with the cursor at character offset
/// `cursor`: the scan before the cursor yields the finalized words; the scan
/// after the cursor completes the word under the cursor; if that word is
/// nonempty it becomes one additional final word and the current word
/// denotes it, else the current word index points one past the last word.
/// The word's offset within the line and its length are byte counts: the
/// UTF-8 lengths of the character prefix before the word and of the word
/// itself.
pub open spec fn spec_extract(line: Seq<char>, cursor: int) -> SpecContext {
    let n = if cursor <= line.len() {
        cursor
    } else {
        line.len() as int
    };
    let st = scan_prefix(line, n);
    let tail = scan_tail(st.word, st.in_string, st.prev, line, cursor);
    if tail.len() > 0 {
        SpecContext {
            words: st.words.push(tail),
            current_word_index: st.words.len() as int,
            line: line,
            current_word_offset: encode_utf8(line.take(st.word_offset)).len() as int,
            current_word_len: encode_utf8(tail).len() as int,
            user_cursor: cursor,
        }
    } else {
        SpecContext {
            words: st.words,
            current_word_index: st.words.len() as int,
            line: line,
            current_word_offset: encode_utf8(line.take(st.word_offset)).len() as int,
            current_word_len: 0,
            user_cursor: cursor,
        }
    }
}

/// The parsed snapshot of the input line and cursor used to decide what to
/// complete.
pub struct CompletionContext {
    pub words: Vec<String>,
    /// The index of the current word in `words`.
    pub current_word_index: isize,
    /// The whole line.
    pub line: String,
    /// The byte offset of the beginning of the current word in `line`.
    pub current_word_offset: usize,
    /// The length of the current word, in bytes.
    pub current_word_len: usize,
    /// The raw cursor offset supplied by the caller.
    pub user_cursor: usize,
}

impl View for CompletionContext {
    type V = SpecContext;

    open spec fn view(&self) -> SpecContext {
        SpecContext {
            words: self.words.deep_view(),
            current_word_index: self.current_word_index as int,
            line: self.line@,
            current_word_offset: self.current_word_offset as int,
            current_word_len: self.current_word_len as int,
            user_cursor: self.user_cursor as int,
        }
    }
}

impl CompletionContext {
    /// The word under the cursor, if the current word index denotes an
    /// existing word.
    pub open spec fn spec_current_word(&self) -> Option<Seq<char>> {
        if 0 <= self.current_word_index && (self.current_word_index as int)
            < self.words.deep_view().len() {
            Some(self.words.deep_view()[self.current_word_index as int])
        } else {
            None
        }
    }

    /// A context produced by extraction: the current word index is inside
    /// the word list or one past its end.
    pub open spec fn wf(&self) -> bool {
        0 <= self.current_word_index && self.current_word_index as int
            <= self.words.deep_view().len()
    }

    pub fn current_word(&self) -> (r: Option<String>)
        ensures
            r.deep_view() == self.spec_current_word(),
    {
        if self.current_word_index >= 0 {
            let idx = self.current_word_index as usize;
            if idx < self.words.len() {
                return Some(self.words[idx].clone());
            }
        }
        None
    }
}

/// Splits a raw input line plus a cursor offset into words and identifies
/// the word containing the cursor. A pure function of its inputs; `cursor`
/// counts characters, and may lie anywhere, including past the end of the
/// line.
pub fn extract_completion_context(user_input: &str, user_cursor: usize) -> (ctx: CompletionContext)
    requires
        user_input@.len() < isize::MAX as int,
    ensures
        ctx@ == spec_extract(user_input@, user_cursor as int),
        ctx.wf(),
{
    let ghost gline = user_input@;
    let line_len = user_input.unicode_len();
    let n = if user_cursor < line_len {
        user_cursor
    } else {
        line_len
    };

    let mut words: Vec<String> = Vec::new();
    let mut word: Vec<char> = Vec::new();
    let mut in_string: bool = false;
    let mut prev_ch: char = '\x00';
    // character position at which the current word starts; turned into a
    // byte offset at the end
    let mut word_start: usize = 0;

    proof {
        assert(words.deep_view() =~= scan_prefix(gline, 0).words);
        assert(word@ =~= scan_prefix(gline, 0).word);
    }

    let mut i: usize = 0;
    while i < n
        invariant
            n <= line_len,
            line_len == gline.len(),
            gline == user_input@,
            i <= n,
            words@.len() <= i,
            word_start <= i,
            words.deep_view() == scan_prefix(gline, i as int).words,
            word@ == scan_prefix(gline, i as int).word,
            in_string == scan_prefix(gline, i as int).in_string,
            prev_ch == scan_prefix(gline, i as int).prev,
            word_start as int == scan_prefix(gline, i as int).word_offset,
        decreases n - i,
    {
        let ghost st0 = scan_prefix(gline, i as int);
        let ch = user_input.get_char(i);
        proof {
            assert(scan_prefix(gline, i as int + 1) == scan_step(st0, gline[i as int], i as int));
        }
        if in_string && prev_ch == '\\' && ch == '"' {
            if word.len() > 0 && word[word.len() - 1] == '\\' {
                word.pop();
            }
            word.push('"');
            proof {
                assert(word@ =~= unescape_quote(st0.word));
            }
        } else if in_string && ch == '"' {
            in_string = false;
        } else if !in_string && ch == '"' {
            in_string = true;
        } else if !in_string && ch == ' ' {
            let finished = chars_to_string(&word);
            words.push(finished);
            word = Vec::new();
            word_start = i + 1;
            proof {
                assert(words.deep_view() =~= st0.words.push(st0.word));
                assert(word@ =~= Seq::<char>::empty());
            }
        } else if !in_string && !is_valid_word_char(ch) && ch != '*' && ch != '?' {
            words = Vec::new();
            word = Vec::new();
            word_start = i + 1;
            proof {
                assert(words.deep_view() =~= Seq::<Seq<char>>::empty());
                assert(word@ =~= Seq::<char>::empty());
            }
        } else {
            word.push(ch);
        }
        prev_ch = ch;
        i = i + 1;
    }

    let ghost st1 = scan_prefix(gline, n as int);
    let ghost tail_target = scan_tail(st1.word, st1.in_string, st1.prev, gline, user_cursor as int);

    let mut j: usize = user_cursor;
    while j < line_len
        invariant_except_break
            line_len == gline.len(),
            gline == user_input@,
            user_cursor <= j,
            j <= line_len || j == user_cursor,
            prev_ch == st1.prev,
            scan_tail(word@, in_string, st1.prev, gline, j as int) == tail_target,
        ensures
            word@ == tail_target,
        decreases line_len - j,
    {
        let ghost w0 = word@;
        let ghost is0 = in_string;
        let ch = user_input.get_char(j);
        if in_string && prev_ch == '\\' && ch == '"' {
            if word.len() > 0 && word[word.len() - 1] == '\\' {
                word.pop();
            }
            word.push('"');
            proof {
                assert(word@ =~= unescape_quote(w0));
            }
        } else if in_string && ch == '"' {
            in_string = false;
        } else if !in_string && ch == '"' {
            in_string = true;
        } else if !in_string && !is_valid_word_char(ch) && ch != '*' && ch != '?' {
            proof {
                assert(scan_tail(w0, is0, st1.prev, gline, j as int) == w0);
            }
            break;
        } else {
            word.push(ch);
        }
        j = j + 1;
    }

    let current_word_index: isize;
    let current_word_len: usize;
    if word.len() > 0 {
        let finished = chars_to_string(&word);
        current_word_len = finished.as_str().as_bytes().len();
        words.push(finished);
        current_word_index = (words.len() - 1) as isize;
        proof {
            assert(words.deep_view() =~= st1.words.push(tail_target));
        }
    } else {
        current_word_index = words.len() as isize;
        current_word_len = 0;
    }

    let prefix = user_input.substring_char(0, word_start);
    let current_word_offset = prefix.as_bytes().len();
    proof {
        assert(prefix@ =~= gline.take(st1.word_offset));
    }

    let line = user_input.to_owned();
    let ctx = CompletionContext {
        words,
        current_word_index,
        line,
        current_word_offset,
        current_word_len,
        user_cursor,
    };
    proof {
        assert(ctx@.words =~~= spec_extract(gline, user_cursor as int).words);
        assert(ctx@ =~~= spec_extract(gline, user_cursor as int));
    }
    ctx
}

/// Law: extraction is total and the current word index it reports is never
/// negative; it stays within the bounds of the word list, with index 0
/// always denoting the command-name position.
pub proof fn lemma_extract_index_in_bounds(line: Seq<char>, cursor: int)
    ensures
        0 <= spec_extract(line, cursor).current_word_index,
        spec_extract(line, cursor).current_word_index <= spec_extract(line, cursor).words.len(),
{
}

/// Law: extraction is a pure function of the line and the cursor — two
/// contexts extracted from the same pair are structurally identical.
pub proof fn lemma_extract_idempotent(
    c1: CompletionContext,
    c2: CompletionContext,
    line: Seq<char>,
    cursor: int,
)
    requires
        c1@ == spec_extract(line, cursor),
        c2@ == spec_extract(line, cursor),
    ensures
        c1@ == c2@,
{
}

} // verus!
