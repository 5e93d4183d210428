//! Bookmarks on lines of the grid, set and visited by an OSC sequence.
use vstd::prelude::*;

use crate::term::{Point, Term, TermView};

verus! {

/// The lowest of the first `lines` lines that has a bookmark, at that bookmark;
/// the first cell of the grid where none has.
pub open spec fn previous_bookmark(bookmarks: Seq<Option<usize>>, lines: int) -> Point
    decreases lines,
{
    if lines <= 0 {
        Point { line: 0, column: 0 }
    } else {
        match bookmarks[lines - 1] {
            Some(column) => Point { line: (lines - 1) as i32, column },
            None => previous_bookmark(bookmarks, lines - 1),
        }
    }
}

/// What the parameters of the sequence ask for.
pub enum Request {
    /// Jump to the previous bookmark.
    Jump,
    /// Add the bookmark flag to the next characters.
    Start,
    /// Stop adding the bookmark flag.
    Stop,
    /// Anything else.
    Nothing,
}

/// The request that the second parameter makes.
pub open spec fn requested(params: Seq<&[u8]>) -> Request {
    if params.len() <= 1 || params[1]@.len() != 1 {
        Request::Nothing
    } else if params[1]@[0] == '0' as u8 {
        Request::Jump
    } else if params[1]@[0] == '1' as u8 {
        Request::Start
    } else if params[1]@[0] == '2' as u8 {
        Request::Stop
    } else {
        Request::Nothing
    }
}

/// Whether every line above the cursor is a visible line.
pub open spec fn cursor_within(term: TermView) -> bool {
    term.cursor.line <= term.bookmarks.len()
}

/// The terminal after the sequence.
pub open spec fn executed(term: TermView, params: Seq<&[u8]>) -> TermView {
    match requested(params) {
        Request::Jump => TermView {
            cursor: previous_bookmark(term.bookmarks, term.cursor.line as int),
            ..term
        },
        Request::Start => TermView { bookmark: true, ..term },
        Request::Stop => TermView { bookmark: false, ..term },
        Request::Nothing => term,
    }
}

/// Executes the bookmark sequence. The second parameter is
/// - `0`: jump to the previous bookmark,
/// - `1`: add the bookmark flag to the next characters,
/// - `2`: stop adding the bookmark flag.
pub fn osc_execute(term: &mut Term, params: &[&[u8]])
    requires
        requested(params@) is Jump ==> cursor_within(old(term)@),
    ensures
        final(term)@ == executed(old(term)@, params@),
{
    if params.len() > 1 && params[1].len() == 1 {
        let request: u8 = params[1][0];
        if request == '0' as u8 {
            jump_bookmark(term);
        } else if request == '1' as u8 {
            start_bookmark(term);
        } else if request == '2' as u8 {
            finish_bookmark(term);
        }
    }
}

/// Adds the bookmark flag to the next characters.
fn start_bookmark(term: &mut Term)
    ensures
        final(term)@ == (TermView { bookmark: true, ..old(term)@ }),
{
    term.grid.cursor.bookmark = true;
}

/// Stops adding the bookmark flag.
fn finish_bookmark(term: &mut Term)
    ensures
        final(term)@ == (TermView { bookmark: false, ..old(term)@ }),
{
    term.grid.cursor.bookmark = false;
}

/// Moves the cursor to the nearest bookmark above its line, or to the first
/// cell of the grid.
fn jump_bookmark(term: &mut Term)
    requires
        cursor_within(old(term)@),
    ensures
        final(term)@ == (TermView {
            cursor: previous_bookmark(old(term)@.bookmarks, old(term)@.cursor.line as int),
            ..old(term)@
        }),
{
    let ghost start = term@;
    let mut line: i32 = term.grid.cursor.point.line;
    let mut point = Point { line: 0, column: 0 };
    while line > 0
        invariant_except_break
            point == (Point { line: 0, column: 0 }),
            previous_bookmark(start.bookmarks, line as int) == previous_bookmark(
                start.bookmarks,
                start.cursor.line as int,
            ),
        invariant
            term@ == start,
            line <= start.bookmarks.len(),
        ensures
            point == previous_bookmark(start.bookmarks, start.cursor.line as int),
        decreases line,
    {
        line = line - 1;
        if let Some(column) = term.grid.bookmarks[line as usize] {
            point = Point { line, column };
            break;
        }
    }
    term.grid.cursor.point = point;
}

/// What `osc_execute` asks of its caller.
pub fn can_execute(term: &Term, params: &[&[u8]]) -> (r: bool)
    ensures
        r == (requested(params@) is Jump ==> cursor_within(term@)),
{
    if params.len() > 1 && params[1].len() == 1 && params[1][0] == '0' as u8 {
        let line: i32 = term.grid.cursor.point.line;
        line <= 0 || line as usize <= term.grid.bookmarks.len()
    } else {
        true
    }
}

/// A jump lands on a bookmark above the cursor's line with no bookmark between
/// the two, or on the first cell where there is no bookmark above.
pub proof fn law_jump_finds_nearest(bookmarks: Seq<Option<usize>>, lines: int)
    requires
        lines <= bookmarks.len(),
        lines <= i32::MAX,
    ensures
        ({
            let p = previous_bookmark(bookmarks, lines);
            ||| {
                &&& 0 <= p.line < lines
                &&& bookmarks[p.line as int] == Some(p.column)
                &&& forall|l: int| p.line < l < lines ==> (#[trigger] bookmarks[l]) is None
            }
            ||| {
                &&& p == (Point { line: 0, column: 0 })
                &&& forall|l: int| 0 <= l < lines ==> (#[trigger] bookmarks[l]) is None
            }
        }),
    decreases lines,
{
    if lines > 0 && bookmarks[lines - 1] is None {
        law_jump_finds_nearest(bookmarks, lines - 1);
    }
}

/// The second parameter decides: `0` moves the cursor to the nearest bookmark above it,
/// or to the first cell where there is none, `1` turns the bookmark flag on, `2` turns
/// it off. Nothing else changes, and any other parameter changes nothing.
pub proof fn law_second_parameter_decides(term: TermView, params: Seq<&[u8]>)
    requires
        cursor_within(term),
        params.len() > 1,
    ensures
        ({
            let after = executed(term, params);
            let asked = params[1]@;
            let p = after.cursor;
            &&& asked == seq!['1' as u8] ==> after == (TermView { bookmark: true, ..term })
            &&& asked == seq!['2' as u8] ==> after == (TermView { bookmark: false, ..term })
            &&& asked == seq!['0' as u8] ==> {
                &&& after == (TermView { cursor: p, ..term })
                &&& {
                    ||| {
                        &&& 0 <= p.line < term.cursor.line
                        &&& term.bookmarks[p.line as int] == Some(p.column)
                        &&& forall|l: int|
                            p.line < l < term.cursor.line ==> (#[trigger] term.bookmarks[l]) is None
                    }
                    ||| {
                        &&& p.line == 0 && p.column == 0
                        &&& forall|l: int|
                            0 <= l < term.cursor.line ==> (#[trigger] term.bookmarks[l]) is None
                    }
                }
            }
            &&& asked != seq!['0' as u8] && asked != seq!['1' as u8] && asked != seq!['2' as u8]
                ==> after == term
        }),
{
    law_jump_finds_nearest(term.bookmarks, term.cursor.line as int);
    let asked = params[1]@;
    if asked.len() == 1 {
        assert(asked =~= seq![asked[0]]);
    }
}

/// Without a second parameter nothing changes.
pub proof fn law_missing_parameter_changes_nothing(term: TermView, params: Seq<&[u8]>)
    requires
        params.len() <= 1,
    ensures
        executed(term, params) == term,
{
}

/// A jump only moves the cursor, and never down; the flag requests leave it
/// where it is.
pub proof fn law_requests_keep_the_rest(term: TermView, params: Seq<&[u8]>)
    requires
        cursor_within(term),
    ensures
        executed(term, params) == (TermView {
            cursor: executed(term, params).cursor,
            bookmark: executed(term, params).bookmark,
            ..term
        }),
        requested(params) is Jump ==> executed(term, params).bookmark == term.bookmark
            && 0 <= executed(term, params).cursor.line && (term.cursor.line > 0 ==> executed(
            term,
            params,
        ).cursor.line < term.cursor.line),
        !(requested(params) is Jump) ==> executed(term, params).cursor == term.cursor,
{
    law_jump_finds_nearest(term.bookmarks, term.cursor.line as int);
}

} // verus!
