use nsh::browser::Completions;

fn strings(v: &[&str]) -> Vec<String> {
    v.iter().map(|s| s.to_string()).collect()
}

fn check_invariant(c: &Completions) {
    let len = c.len();
    let sel = c.selected_index();
    let disp = c.display_index();
    let lines = c.display_lines();
    assert_eq!(lines, 5);
    if len == 0 {
        assert_eq!(sel, 0);
        assert_eq!(disp, 0);
    } else {
        assert!(disp <= sel);
        assert!(sel < len);
        assert!(sel < disp + lines);
    }
}

#[test]
fn new_browser_starts_at_top() {
    let c = Completions::new(strings(&["a", "b", "c"]));
    assert_eq!(c.len(), 3);
    assert_eq!(c.selected_index(), 0);
    assert_eq!(c.display_index(), 0);
    assert_eq!(c.display_lines(), 5);
    assert_eq!(c.selected().as_deref(), Some("a"));
    assert_eq!(c.entries(), strings(&["a", "b", "c"]));
}

#[test]
fn boundary_slide_with_twelve_entries() {
    let names: Vec<String> = (0..12).map(|i| format!("e{}", i)).collect();
    let mut c = Completions::new(names);
    c.move_cursor(11);
    assert_eq!(c.selected_index(), 11);
    assert_eq!(c.display_index(), 7);
    c.move_cursor(-11);
    assert_eq!(c.selected_index(), 0);
    assert_eq!(c.display_index(), 0);
}

#[test]
fn cursor_clamps_at_both_ends() {
    let mut c = Completions::new(strings(&["a", "b", "c"]));
    c.move_cursor(10);
    assert_eq!(c.selected_index(), 2);
    c.move_cursor(-100);
    assert_eq!(c.selected_index(), 0);
}

#[test]
fn invariant_holds_under_arbitrary_moves() {
    let names: Vec<String> = (0..12).map(|i| format!("e{}", i)).collect();
    let mut c = Completions::new(names);
    let offsets: [isize; 12] = [
        3,
        -100,
        50,
        7,
        -2,
        1_000_000,
        -999_999,
        isize::MAX,
        isize::MIN,
        1,
        1,
        -5,
    ];
    for &off in offsets.iter() {
        c.move_cursor(off);
        check_invariant(&c);
    }
}

#[test]
fn empty_browser_selection_stays_at_zero() {
    let mut c = Completions::new(Vec::new());
    for &off in [5isize, -3, 100, isize::MIN].iter() {
        c.move_cursor(off);
        assert_eq!(c.selected_index(), 0);
        assert_eq!(c.display_index(), 0);
        assert_eq!(c.selected(), None);
        check_invariant(&c);
    }
}

#[test]
fn stepwise_walk_slides_window_by_one() {
    let names: Vec<String> = (0..8).map(|i| format!("e{}", i)).collect();
    let mut c = Completions::new(names);
    for _ in 0..5 {
        c.move_cursor(1);
        check_invariant(&c);
    }
    assert_eq!(c.selected_index(), 5);
    assert_eq!(c.display_index(), 1);
    c.move_cursor(-5);
    assert_eq!(c.selected_index(), 0);
    assert_eq!(c.display_index(), 0);
}
