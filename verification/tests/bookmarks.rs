//! Bookmarks: setting the flag and jumping back.
use kitty_graphics::bookmarks::{can_execute, osc_execute};
use kitty_graphics::kitty::KittyState;
use kitty_graphics::term::{Cursor, Graphics, Grid, Point, Term};

fn term_at(line: i32, bookmarks: Vec<Option<usize>>) -> Term {
    Term {
        graphics: Graphics { kitty_state: KittyState::default(), cell_width: 8, cell_height: 16 },
        grid: Grid {
            cursor: Cursor { point: Point { line, column: 9 }, bookmark: false },
            bookmarks,
        },
    }
}

fn execute(term: &mut Term, params: &[&[u8]]) {
    assert!(can_execute(term, params));
    osc_execute(term, params);
}

#[test]
fn jump_goes_to_the_nearest_bookmark_above() {
    let mut term = term_at(3, vec![Some(1), Some(2), None, Some(4), Some(5)]);
    execute(&mut term, &[b"x", b"0"]);
    assert_eq!(term.grid.cursor.point, Point { line: 1, column: 2 });
    execute(&mut term, &[b"x", b"0"]);
    assert_eq!(term.grid.cursor.point, Point { line: 0, column: 1 });
}

#[test]
fn jump_without_bookmark_goes_to_the_first_cell() {
    let mut term = term_at(3, vec![None, None, None, Some(4)]);
    execute(&mut term, &[b"x", b"0"]);
    assert_eq!(term.grid.cursor.point, Point { line: 0, column: 0 });

    // No line lies above the first one.
    let mut term = term_at(0, vec![Some(4)]);
    execute(&mut term, &[b"x", b"0"]);
    assert_eq!(term.grid.cursor.point, Point { line: 0, column: 0 });
}

#[test]
fn flag_is_set_and_cleared() {
    let mut term = term_at(1, vec![Some(3), None]);
    execute(&mut term, &[b"x", b"1"]);
    assert!(term.grid.cursor.bookmark);
    assert_eq!(term.grid.cursor.point, Point { line: 1, column: 9 });
    execute(&mut term, &[b"x", b"0"]);
    assert!(term.grid.cursor.bookmark);
    execute(&mut term, &[b"x", b"2"]);
    assert!(!term.grid.cursor.bookmark);
}

#[test]
fn other_parameters_do_nothing() {
    let mut term = term_at(1, vec![Some(3), None]);
    let others: [&[&[u8]]; 5] = [&[], &[b"0"], &[b"x", b""], &[b"x", b"3"], &[b"x", b"01"]];
    for params in others {
        execute(&mut term, params);
    }
    assert_eq!(term.grid.cursor.point, Point { line: 1, column: 9 });
    assert!(!term.grid.cursor.bookmark);
}

#[test]
fn cursor_below_the_visible_lines_cannot_jump() {
    let term = term_at(3, vec![None, None]);
    assert!(!can_execute(&term, &[b"x", b"0"]));
    assert!(can_execute(&term, &[b"x", b"1"]));
}
