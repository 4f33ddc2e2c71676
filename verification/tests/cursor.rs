use tezzera::text::cursor::TextCursor;

#[test]
fn cursor_new() {
    let c = TextCursor::new(2, 5);
    assert_eq!(c.line, 2);
    assert_eq!(c.col, 5);
}

#[test]
fn cursor_advance_within_line() {
    let mut c = TextCursor::new(0, 0);
    let lengths = [5, 3];
    c.advance(&lengths);
    assert_eq!(c.line, 0);
    assert_eq!(c.col, 1);
}

#[test]
fn cursor_advance_wraps_to_next_line() {
    let mut c = TextCursor::new(0, 5);
    let lengths = [5, 3];
    c.advance(&lengths);
    assert_eq!(c.line, 1);
    assert_eq!(c.col, 0);
}

#[test]
fn cursor_backspace_within_line() {
    let mut c = TextCursor::new(0, 3);
    let lengths = [5, 3];
    c.backspace(&lengths);
    assert_eq!(c.line, 0);
    assert_eq!(c.col, 2);
}

#[test]
fn cursor_backspace_wraps_to_prev_line() {
    let mut c = TextCursor::new(1, 0);
    let lengths = [5, 3];
    c.backspace(&lengths);
    assert_eq!(c.line, 0);
    assert_eq!(c.col, 5);
}

#[test]
fn cursor_home() {
    let mut c = TextCursor::new(1, 4);
    c.home();
    assert_eq!(c.col, 0);
    assert_eq!(c.line, 1);
}

#[test]
fn cursor_end() {
    let mut c = TextCursor::new(0, 1);
    let lengths = [7, 3];
    c.end(&lengths);
    assert_eq!(c.col, 7);
    assert_eq!(c.line, 0);
}

#[test]
fn cursor_up() {
    let mut c = TextCursor::new(1, 3);
    let lengths = [5, 3];
    c.up(&lengths);
    assert_eq!(c.line, 0);
    assert_eq!(c.col, 3);
}

#[test]
fn cursor_down() {
    let mut c = TextCursor::new(0, 2);
    let lengths = [5, 3];
    c.down(&lengths);
    assert_eq!(c.line, 1);
    assert_eq!(c.col, 2);
}

#[test]
fn cursor_stays_at_end_of_last_line() {
    let mut c = TextCursor::new(1, 3);
    let lengths = [5, 3];
    c.advance(&lengths);
    assert_eq!(c, TextCursor::new(1, 3));
    let mut d = TextCursor::new(0, 0);
    d.backspace(&lengths);
    assert_eq!(d, TextCursor::new(0, 0));
}

#[test]
fn cursor_clamps_column_on_vertical_moves() {
    let lengths = [5, 2, 8];
    let mut c = TextCursor::new(0, 4);
    c.down(&lengths);
    assert_eq!(c, TextCursor::new(1, 2));
    c.down(&lengths);
    assert_eq!(c, TextCursor::new(2, 2));
    c.down(&lengths);
    assert_eq!(c, TextCursor::new(2, 2));
    let mut u = TextCursor::new(2, 7);
    u.up(&lengths);
    assert_eq!(u, TextCursor::new(1, 2));
}

#[test]
fn cursor_backspace_undoes_advance() {
    let lengths = [3, 0, 2];
    for line in 0..3usize {
        for col in 0..=lengths[line] {
            let start = TextCursor::new(line, col);
            let mut c = start.clone();
            c.advance(&lengths);
            if c != start {
                c.backspace(&lengths);
                assert_eq!(c, start);
            }
        }
    }
}

#[test]
fn cursor_outside_text() {
    let lengths = [4];
    let mut c = TextCursor::new(3, 2);
    c.advance(&lengths);
    assert_eq!(c, TextCursor::new(3, 2));
    c.end(&lengths);
    assert_eq!(c, TextCursor::new(3, 0));
    let mut d = TextCursor::default();
    d.end(&lengths);
    assert_eq!(d, TextCursor::new(0, 4));
}
