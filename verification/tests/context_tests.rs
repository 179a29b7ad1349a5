use nsh::context::extract_completion_context;

#[test]
fn empty_line_yields_empty_words_and_index_zero() {
    let ctx = extract_completion_context("", 0);
    assert!(ctx.words.is_empty());
    assert_eq!(ctx.current_word_index, 0);
    assert_eq!(ctx.current_word_offset, 0);
    assert_eq!(ctx.current_word_len, 0);
    assert_eq!(ctx.current_word(), None);
}

#[test]
fn index_is_never_negative() {
    let lines = [
        "",
        "ls",
        "ls ",
        "ls -la /tmp",
        "echo \"a b\" c",
        "a | b | c",
        "   ",
        "echo $(pwd) x",
    ];
    for line in lines.iter() {
        for cursor in 0..=line.len() + 2 {
            let ctx = extract_completion_context(line, cursor);
            assert!(ctx.current_word_index >= 0);
            assert!((ctx.current_word_index as usize) <= ctx.words.len());
        }
    }
}

#[test]
fn extraction_is_idempotent() {
    let line = "git checkout -b feature/x";
    let cursor = 14;
    let a = extract_completion_context(line, cursor);
    let b = extract_completion_context(line, cursor);
    assert_eq!(a.words, b.words);
    assert_eq!(a.current_word_index, b.current_word_index);
    assert_eq!(a.line, b.line);
    assert_eq!(a.current_word_offset, b.current_word_offset);
    assert_eq!(a.current_word_len, b.current_word_len);
    assert_eq!(a.user_cursor, b.user_cursor);
}

#[test]
fn escaped_quote_stays_one_token() {
    // echo "a\"b" c  with the cursor at the end of the line
    let line = "echo \"a\\\"b\" c";
    let cursor = line.chars().count();
    let ctx = extract_completion_context(line, cursor);
    assert_eq!(ctx.words[1], "a\"b");
    assert_eq!(ctx.words, vec!["echo", "a\"b", "c"]);
    assert_eq!(ctx.current_word_index, 2);
}

#[test]
fn pipe_resets_accumulated_words() {
    let line = "ls foo | grep bar";
    let cursor = line.chars().count();
    let ctx = extract_completion_context(line, cursor);
    assert!(!ctx.words.iter().any(|w| w == "ls"));
    assert!(!ctx.words.iter().any(|w| w == "foo"));
    assert_eq!(ctx.words, vec!["", "grep", "bar"]);
    assert_eq!(ctx.current_word_index, 2);
}

#[test]
fn cursor_inside_word_takes_the_whole_word() {
    // cursor between 'f' and 'o': the completion target is still "foo"
    let ctx = extract_completion_context("ls foo", 4);
    assert_eq!(ctx.current_word_index, 1);
    assert_eq!(ctx.current_word().as_deref(), Some("foo"));
    assert_eq!(ctx.current_word_len, 3);
    assert_eq!(ctx.current_word_offset, 3);
}

#[test]
fn cursor_at_word_boundary_denotes_new_trailing_word() {
    let ctx = extract_completion_context("ls ", 3);
    assert_eq!(ctx.words, vec!["ls"]);
    assert_eq!(ctx.current_word_index, 1);
    assert_eq!(ctx.current_word(), None);
}

#[test]
fn cursor_past_line_end_is_tolerated() {
    let ctx = extract_completion_context("ls foo", 100);
    assert_eq!(ctx.words, vec!["ls", "foo"]);
    assert_eq!(ctx.current_word_index, 1);
}

#[test]
fn glob_wildcards_are_accepted_in_words() {
    let line = "rm *.txt";
    let ctx = extract_completion_context(line, line.len());
    assert_eq!(ctx.words, vec!["rm", "*.txt"]);
}

#[test]
fn quote_state_carries_into_second_pass() {
    // cursor right after the opening quote: the quoted space does not end
    // the current word
    let line = "cat \"a b\"";
    let ctx = extract_completion_context(line, 5);
    assert_eq!(ctx.current_word_index, 1);
    assert_eq!(ctx.current_word().as_deref(), Some("a b"));
}

#[test]
fn word_offset_counts_bytes_not_characters() {
    // "\u{e9}" is one character but two bytes; the offset locates the
    // current word within the line by bytes
    let line = "\u{e9} x";
    let ctx = extract_completion_context(line, 3);
    assert_eq!(ctx.current_word_index, 1);
    assert_eq!(ctx.current_word().as_deref(), Some("x"));
    assert_eq!(ctx.current_word_offset, 3);
    assert_eq!(ctx.current_word_len, 1);
    let start = ctx.current_word_offset;
    let end = start + ctx.current_word_len;
    assert_eq!(&ctx.line[start..end], "x");
}

#[test]
fn word_length_counts_bytes_not_characters() {
    let line = "cat \u{e9}";
    let ctx = extract_completion_context(line, 5);
    assert_eq!(ctx.current_word_offset, 4);
    assert_eq!(ctx.current_word_len, 2);
    let start = ctx.current_word_offset;
    let end = start + ctx.current_word_len;
    assert_eq!(&ctx.line[start..end], "\u{e9}");
}

#[test]
fn etc_ho_scenario_extracts_argument_word() {
    let ctx = extract_completion_context("cat /etc/ho", 11);
    assert_eq!(ctx.current_word_index, 1);
    assert_eq!(ctx.current_word_offset, 4);
    assert_eq!(ctx.current_word().as_deref(), Some("/etc/ho"));
    assert_eq!(ctx.current_word_len, 7);
}
