//! What the provider's operations do to a terminal in memory.
//!
//! Each law speaks of [`TerminalView::perform`], the terminal after an
//! operation and the result of the operation, which is what
//! [`crate::virtual_terminal::VirtualTerminal::perform`] computes.

use crate::command::{CommandOutputView, CommandView};
use crate::execution_result::ExecutionResultView;
use crate::mainframe_processor::{
    asks,
    step,
    Consulted,
    Operation,
    OperationOutcomeView,
    SetOperation,
    SetOperationSource,
    StoreOperation,
};
use crate::provider_operation::{
    bounds_around,
    without_markers,
    SCREEN_HEIGHT,
    SCREEN_WIDTH,
    Finding,
    Position,
    MAX_FIELD_ADVANCES,
    ProviderOperationView,
    ProviderOutputView,
    ProviderRequestView,
    Stage,
};
use crate::virtual_terminal::{
    first_field_after,
    first_field_not_before,
    lemma_first_field_after,
    lemma_first_field_not_before,
    lemma_run_to_end,
    not_after,
    origin,
    precedes,
    FieldSpan,
    TerminalView,
};
use vstd::prelude::*;

verus! {

/// One exchange of an operation that is not finished: the terminal answers
/// the command that the operation asks for, and the run goes on from there.
proof fn lemma_run_step(terminal: TerminalView, operation: ProviderOperationView, steps: nat)
    requires
        steps >= 1,
        operation.next_command() is Some,
    ensures
        terminal.run(operation, steps) == terminal.respond(operation.next_command()->0).0.run(
            operation.accept(terminal.respond(operation.next_command()->0).1),
            (steps - 1) as nat,
        ),
{
}

/// A finished operation runs no further.
proof fn lemma_run_finished(terminal: TerminalView, operation: ProviderOperationView, steps: nat)
    requires
        operation.finished(),
    ensures
        terminal.run(operation, steps) == (terminal, operation),
{
}

/// Writing text leaves the cursor where it was, wherever that was and
/// whether or not the text could be written.
///
/// Text that lies in one row of the screen is written, and nothing but its
/// cells changes. Text that does not is refused, and nothing changes at all.
pub proof fn lemma_set_text_keeps_cursor(terminal: TerminalView, x: u8, y: u8, text: Seq<char>)
    requires
        terminal.well_formed(),
    ensures
        ({
            let (after, result) = terminal.perform(
                ProviderRequestView::SetTextAtLocation { x, y, text },
            );
            &&& after.cursor == terminal.cursor
            &&& if terminal.spans(Position { row: y, column: x }, text.len() as int) {
                &&& result == ExecutionResultView::Success(ProviderOutputView::Done)
                &&& after == (TerminalView {
                    cells: terminal.cells.update(
                        y as int,
                        terminal.row_with(y as int, x as int, text),
                    ),
                    ..terminal
                })
            } else {
                &&& result == ExecutionResultView::<ProviderOutputView>::CommandFailure(None)
                &&& after == terminal
            }
        }),
{
    reveal(ProviderOperationView::accept);
    let request = ProviderRequestView::SetTextAtLocation { x, y, text };
    let unset = ExecutionResultView::<ProviderOutputView>::Unset;
    let refused = ExecutionResultView::<ProviderOutputView>::CommandFailure(None);
    let saved = terminal.cursor;
    let target = Position { row: y, column: x };
    let begin = ProviderOperationView::start(request);
    let steps = begin.remaining();
    let unit = ExecutionResultView::Success(CommandOutputView::Unit);
    let moving = ProviderOperationView { request, stage: Stage::MoveToTarget { saved }, result: unset };
    let writing = ProviderOperationView { request, stage: Stage::Write { saved }, result: unset };
    let giving_up = ProviderOperationView {
        request,
        stage: Stage::Restore { saved, finding: Finding::Refused },
        result: refused,
    };
    lemma_run_step(terminal, begin, steps);
    lemma_run_step(terminal, moving, (steps - 1) as nat);
    assert(terminal.with_cursor(saved) == terminal);
    if terminal.holds(target) {
        let moved = terminal.with_cursor(target);
        lemma_run_step(moved, writing, (steps - 2) as nat);
        assert(moved.with_cursor(saved) == terminal);
        if moved.takes(text) {
            let written = moved.typed(text);
            let restore = ProviderOperationView {
                request,
                stage: Stage::Restore { saved, finding: Finding::Written },
                result: unset,
            };
            let after = TerminalView {
                cells: terminal.cells.update(y as int, terminal.row_with(y as int, x as int, text)),
                ..terminal
            };
            assert(written.with_cursor(saved) == after);
            lemma_run_step(written, restore, (steps - 3) as nat);
            lemma_run_finished(after, restore.accept(unit), (steps - 4) as nat);
        } else {
            lemma_run_step(moved, giving_up, (steps - 3) as nat);
            lemma_run_finished(terminal, giving_up.accept(unit), (steps - 4) as nat);
        }
    } else {
        lemma_run_step(terminal, giving_up, (steps - 2) as nat);
        lemma_run_finished(terminal, giving_up.accept(unit), (steps - 3) as nat);
    }
}

/// Reading the screen gives its rows from the top, one line for each, in
/// order: exactly as many lines as the screen that is read has rows, each
/// with the cells of its row. A terminal that is smaller than that screen
/// refuses. Either way the terminal stays as it was.
pub proof fn lemma_screen_text(terminal: TerminalView)
    requires
        terminal.well_formed(),
    ensures
        ({
            let (after, result) = terminal.perform(ProviderRequestView::GetScreenText);
            &&& after == terminal
            &&& if terminal.rows >= SCREEN_HEIGHT && terminal.columns >= SCREEN_WIDTH {
                &&& result matches ExecutionResultView::Success(ProviderOutputView::Lines(lines))
                &&& lines.len() == SCREEN_HEIGHT
                &&& forall|r: int|
                    0 <= r < SCREEN_HEIGHT ==> #[trigger] lines[r] == terminal.cells[r].subrange(
                        0,
                        SCREEN_WIDTH as int,
                    )
            } else {
                result == ExecutionResultView::<ProviderOutputView>::CommandFailure(None)
            }
        }),
{
    reveal(ProviderOperationView::accept);
    reveal_with_fuel(TerminalView::run, 3);
    if terminal.rows >= SCREEN_HEIGHT && terminal.columns >= SCREEN_WIDTH {
        let region = terminal.region(origin(), SCREEN_WIDTH as int, SCREEN_HEIGHT as int);
        let lines = without_markers(region);
        assert forall|r: int| 0 <= r < SCREEN_HEIGHT implies #[trigger] lines[r]
            == terminal.cells[r].subrange(0, SCREEN_WIDTH as int) by {
            assert(region[r].drop_last() =~= terminal.cells[r].subrange(0, SCREEN_WIDTH as int));
        }
    }
}

/// Reading text and writing it back where it was read leaves the terminal
/// as it was: the cells, the cursor and the fields.
///
/// The read itself changes nothing. It gives the cells asked for where they
/// lie in one row of the screen, and is refused where they do not.
pub proof fn lemma_read_then_write_back(terminal: TerminalView, x: u8, y: u8, length: u8)
    requires
        terminal.well_formed(),
    ensures
        ({
            let (read, result) = terminal.perform(
                ProviderRequestView::GetTextAtLocation { x, y, length },
            );
            &&& read == terminal
            &&& if terminal.spans(Position { row: y, column: x }, length as int) {
                result == ExecutionResultView::Success(
                    ProviderOutputView::Text(
                        terminal.cells[y as int].subrange(x as int, x + length),
                    ),
                )
            } else {
                result == ExecutionResultView::<ProviderOutputView>::CommandFailure(None)
            }
            &&& result matches ExecutionResultView::Success(ProviderOutputView::Text(text))
                ==> terminal.perform(ProviderRequestView::SetTextAtLocation { x, y, text }) == (
                terminal,
                ExecutionResultView::Success(ProviderOutputView::Done),
            )
        }),
{
    reveal(ProviderOperationView::accept);
    reveal_with_fuel(TerminalView::run, 3);
    if terminal.spans(Position { row: y, column: x }, length as int) {
        let text = terminal.cells[y as int].subrange(x as int, x + length);
        lemma_set_text_keeps_cursor(terminal, x, y, text);
        assert(terminal.row_with(y as int, x as int, text) =~= terminal.cells[y as int]);
        assert(terminal.cells.update(y as int, terminal.cells[y as int]) =~= terminal.cells);
    }
}

/// A step that stores text from the screen, followed by a step that sets the
/// text of that variable at another place, puts the text that was read at
/// the other place: the read gives the cells, the variable holds them, and
/// the write puts them where it is told and leaves the cursor where it was.
pub proof fn lemma_store_then_set<S>(
    terminal: TerminalView,
    variables: Map<Seq<char>, Seq<char>>,
    store: StoreOperation,
    set: SetOperation,
)
    requires
        terminal.well_formed(),
        terminal.spans(Position { row: store.y, column: store.x }, store.length as int),
        terminal.spans(Position { row: set.y, column: set.x }, store.length as int),
        set.source matches SetOperationSource::StoredVariable(name) && name@
            == store.variable_name@,
    ensures
        ({
            let text = terminal.cells[store.y as int].subrange(
                store.x as int,
                store.x + store.length,
            );
            let read = Consulted::Read {
                x: store.x,
                y: store.y,
                length: store.length,
                answer: ExecutionResultView::Success(text),
            };
            let stored = variables.insert(store.variable_name@, text);
            let wrote = Consulted::Wrote {
                x: set.x,
                y: set.y,
                text,
                reply: ExecutionResultView::Success(()),
            };
            let (written, result) = terminal.perform(
                ProviderRequestView::SetTextAtLocation { x: set.x, y: set.y, text },
            );
            &&& terminal.perform(
                ProviderRequestView::GetTextAtLocation {
                    x: store.x,
                    y: store.y,
                    length: store.length,
                },
            ) == (terminal, ExecutionResultView::Success(ProviderOutputView::Text(text)))
            &&& step(Operation::<S>::Store(store), variables, seq![read]) == Some(
                (stored, OperationOutcomeView::Stored),
            )
            &&& result == ExecutionResultView::Success(ProviderOutputView::Done)
            &&& step(Operation::<S>::SetText(set), stored, seq![wrote]) == Some(
                (stored, OperationOutcomeView::Written),
            )
            &&& written.cells[set.y as int].subrange(set.x as int, set.x + store.length) == text
            &&& written.cursor == terminal.cursor
        }),
{
    let text = terminal.cells[store.y as int].subrange(store.x as int, store.x + store.length);
    lemma_read_then_write_back(terminal, store.x, store.y, store.length);
    lemma_set_text_keeps_cursor(terminal, set.x, set.y, text);
    let row = terminal.row_with(set.y as int, set.x as int, text);
    assert(row.subrange(set.x as int, set.x + store.length) == text);
}

/// A step that sets the text of a variable that holds nothing asks for
/// nothing: it is skipped, and says so.
pub proof fn lemma_unresolved_set_asks_nothing<S>(
    variables: Map<Seq<char>, Seq<char>>,
    set: SetOperation,
)
    requires
        set.source matches SetOperationSource::StoredVariable(name) && !variables.contains_key(
            name@,
        ),
    ensures
        asks(Operation::<S>::SetText(set), variables) == 0,
        step(Operation::<S>::SetText(set), variables, Seq::empty()) == Some(
            (variables, OperationOutcomeView::UnresolvedVariable),
        ),
{
}

/// A field starts before every field that comes after it, and searching
/// from the start of a field finds its neighbours: the first field after the
/// start is the next one, and the first field that is not before the start
/// is the field itself.
pub proof fn lemma_search_from_field_start(terminal: TerminalView, at: int)
    requires
        terminal.well_formed(),
        0 <= at < terminal.fields.len(),
    ensures
        forall|j: int|
            at < j < terminal.fields.len() ==> precedes(
                terminal.fields[at].start,
                (#[trigger] terminal.fields[j]).start,
            ),
        first_field_after(terminal.fields, terminal.fields[at].start, 0) == at + 1,
        first_field_not_before(terminal.fields, terminal.fields[at].start, 0) == at,
{
    let fields = terminal.fields;
    let here = fields[at].start;
    assert forall|i: int, j: int| 0 <= i < j < fields.len() implies precedes(
        (#[trigger] fields[i]).start,
        (#[trigger] fields[j]).start,
    ) by {
        assert(not_after(fields[i].start, fields[i].end));
        assert(precedes(fields[i].end, fields[j].start));
    }
    lemma_first_field_after(fields, here, 0);
    lemma_first_field_not_before(fields, here, 0);
    let after = first_field_after(fields, here, 0);
    let not_before = first_field_not_before(fields, here, 0);
    if after <= at {
        assert(precedes(here, fields[after].start));
        if after < at {
            assert(precedes(fields[after].start, fields[at].start));
        }
    }
    if after > at + 1 {
        assert(!precedes(here, fields[at + 1].start));
        assert(precedes(fields[at].start, fields[at + 1].start));
    }
    if not_before < at {
        assert(!precedes(fields[not_before].start, here));
        assert(precedes(fields[not_before].start, fields[at].start));
    }
    if not_before > at {
        assert(precedes(fields[at].start, here));
    }
}

/// The field that holds the cursor or, where none does, the last field
/// before the cursor; around the end of the screen, the last field of all.
pub open spec fn field_near_cursor(terminal: TerminalView) -> FieldSpan {
    let after = first_field_after(terminal.fields, terminal.cursor, 0);
    if after > 0 {
        terminal.fields[after - 1]
    } else {
        terminal.fields[terminal.fields.len() - 1]
    }
}

/// On a screen with fields, the bound that is found around the cursor is
/// that of the field that holds the cursor or comes before it, and the
/// terminal is left as it was.
///
/// So there is no bound where that field starts in another row than the
/// cursor's, and a bound that is found starts in the cursor's row, at or
/// before the cursor's column, and reaches the cursor's column or beyond.
pub proof fn lemma_field_vector(terminal: TerminalView)
    requires
        terminal.well_formed(),
        terminal.fields.len() >= 1,
    ensures
        ({
            let field = field_near_cursor(terminal);
            let bounds = bounds_around(terminal.cursor, field.start, field.end);
            &&& terminal.perform(ProviderRequestView::GetFieldVector) == (
                terminal,
                ExecutionResultView::Success(ProviderOutputView::Bounds(bounds)),
            )
            &&& field.start.row != terminal.cursor.row ==> bounds is None
            &&& bounds matches Some(b) ==> b.row == terminal.cursor.row && b.column
                <= terminal.cursor.column <= b.column + b.length - 1
        }),
{
    reveal(ProviderOperationView::accept);
    let request = ProviderRequestView::GetFieldVector;
    let unset = ExecutionResultView::<ProviderOutputView>::Unset;
    let fields = terminal.fields;
    let count = fields.len() as int;
    let saved = terminal.cursor;
    lemma_first_field_after(fields, saved, 0);
    let after = first_field_after(fields, saved, 0);
    let ahead = if after < count {
        after
    } else {
        0
    };
    let near = if after > 0 {
        after - 1
    } else {
        count - 1
    };
    let start = fields[near].start;
    let end = fields[near].end;
    let bounds = bounds_around(saved, start, end);
    // Asking where the cursor is, moving on one field, then back one field.
    let forward = terminal.with_cursor(fields[ahead].start);
    assert(terminal.next_field() == fields[ahead].start);
    lemma_search_from_field_start(terminal, ahead);
    assert(forward.previous_field() == start);
    let back = terminal.with_cursor(start);
    assert(forward.with_cursor(start) == back);
    let at = |stage: Stage| ProviderOperationView { request, stage, result: unset };
    let begin = ProviderOperationView::start(request);
    let steps = begin.remaining();
    lemma_run_step(terminal, begin, steps);
    lemma_run_step(terminal, at(Stage::BoundsAdvance { saved }), (steps - 1) as nat);
    lemma_run_step(forward, at(Stage::BoundsRetreat { saved }), (steps - 2) as nat);
    lemma_run_step(back, at(Stage::BoundsStart { saved }), (steps - 3) as nat);
    let restore = at(Stage::Restore { saved, finding: Finding::Bounds(bounds) });
    let done = restore.accept(
        ExecutionResultView::Success(CommandOutputView::Unit),
    );
    assert(back.with_cursor(saved) == terminal);
    if start.row != saved.row {
        lemma_run_step(back, restore, (steps - 4) as nat);
        lemma_run_finished(terminal, done, (steps - 5) as nat);
    } else {
        // Moving to the end of the field and asking where that is.
        lemma_search_from_field_start(terminal, near);
        assert(back.field_at_cursor() == Some(near));
        let ended = back.with_cursor(end);
        assert(ended.with_cursor(saved) == terminal);
        lemma_run_step(back, at(Stage::BoundsFieldEnd { saved, start }), (steps - 4) as nat);
        lemma_run_step(ended, at(Stage::BoundsEnd { saved, start }), (steps - 5) as nat);
        lemma_run_step(ended, restore, (steps - 6) as nat);
        lemma_run_finished(terminal, done, (steps - 7) as nat);
    }
}

/// A cursor that was moved to a cell of the screen is found there: the move
/// succeeds, and asking for the cursor then gives that cell.
pub proof fn lemma_moved_cursor_is_found(terminal: TerminalView, row: u8, column: u8)
    requires
        terminal.well_formed(),
        terminal.holds(Position { row, column }),
    ensures
        ({
            let (moved, done) = terminal.respond(CommandView::MoveCursor { row, column });
            &&& done == ExecutionResultView::Success(CommandOutputView::Unit)
            &&& moved.respond(CommandView::ReadCursorPosition) == (
                moved,
                ExecutionResultView::Success(CommandOutputView::Cursor(row, column)),
            )
        }),
{
}

/// The move to a field by its index, while it advances: `remaining` moves to
/// the next field are still to make.
pub open spec fn seeking(index: u8, remaining: u8) -> ProviderOperationView {
    ProviderOperationView {
        request: ProviderRequestView::MoveToFieldIndex { index },
        stage: Stage::SeekNext { remaining },
        result: ExecutionResultView::Unset,
    }
}

/// From any field on, the moves that are left lead as many fields further,
/// around the end of the screen where there are not so many.
proof fn lemma_seek_from(terminal: TerminalView, index: u8, at: int, remaining: u8)
    requires
        terminal.well_formed(),
        0 <= at < terminal.fields.len(),
        terminal.cursor == terminal.fields[at].start,
        remaining >= 1,
    ensures
        ({
            let operation = seeking(index, remaining);
            let (after, finished) = terminal.run(operation, operation.remaining());
            &&& after == terminal.with_cursor(
                terminal.fields[(at + remaining) % (terminal.fields.len() as int)].start,
            )
            &&& finished.result == ExecutionResultView::Success(ProviderOutputView::Done)
        }),
    decreases remaining,
{
    reveal(ProviderOperationView::accept);
    let fields = terminal.fields;
    let count = fields.len() as int;
    let operation = seeking(index, remaining);
    let next = if at + 1 < count {
        at + 1
    } else {
        0
    };
    assert(next == (at + 1) % count) by {
        if at + 1 < count {
            vstd::arithmetic::div_mod::lemma_small_mod((at + 1) as nat, count as nat);
        } else {
            vstd::arithmetic::div_mod::lemma_mod_self_0(count);
        }
    }
    lemma_search_from_field_start(terminal, at);
    assert(terminal.next_field() == fields[next].start);
    let moved = terminal.with_cursor(fields[next].start);
    lemma_run_step(terminal, operation, operation.remaining());
    let unit = ExecutionResultView::Success(CommandOutputView::Unit);
    if remaining > 1 {
        lemma_seek_from(moved, index, next, (remaining - 1) as u8);
        assert((next + (remaining - 1)) % count == (at + remaining) % count) by {
            vstd::arithmetic::div_mod::lemma_add_mod_noop(at + 1, remaining - 1, count);
            vstd::arithmetic::div_mod::lemma_add_mod_noop(next, remaining - 1, count);
            vstd::arithmetic::div_mod::lemma_small_mod(next as nat, count as nat);
        }
        assert(moved.with_cursor(fields[(at + remaining) % count].start) == terminal.with_cursor(
            fields[(at + remaining) % count].start,
        ));
    } else {
        lemma_run_finished(moved, operation.accept(unit), 1);
    }
}

/// Moving to a field by its index leads to the start of that field, counted
/// from the first field and around the end of the screen, and changes
/// nothing else. On a screen without fields it leads to the first cell.
pub proof fn lemma_move_to_field_index(terminal: TerminalView, index: u8)
    requires
        terminal.well_formed(),
    ensures
        terminal.perform(ProviderRequestView::MoveToFieldIndex { index }) == (
            terminal.with_cursor(
                if terminal.fields.len() == 0 {
                    origin()
                } else {
                    terminal.fields[index as int % (terminal.fields.len() as int)].start
                },
            ),
            ExecutionResultView::Success(ProviderOutputView::Done),
        ),
{
    reveal(ProviderOperationView::accept);
    let request = ProviderRequestView::MoveToFieldIndex { index };
    let start = ProviderOperationView::start(request);
    let home = terminal.with_cursor(terminal.first_field());
    let unit = ExecutionResultView::Success(CommandOutputView::Unit);
    let count = terminal.fields.len() as int;
    lemma_run_step(terminal, start, start.remaining());
    if index == 0 {
        lemma_run_finished(home, start.accept(unit), (start.remaining() - 1) as nat);
        if count > 0 {
            vstd::arithmetic::div_mod::lemma_small_mod(0, count as nat);
        }
    } else if count == 0 {
        lemma_seek_nowhere(home, index, index);
        lemma_run_to_end(
            home,
            seeking(index, index),
            seeking(index, index).remaining(),
            (start.remaining() - 1) as nat,
        );
    } else {
        lemma_seek_from(home, index, 0, index);
        lemma_run_to_end(
            home,
            seeking(index, index),
            seeking(index, index).remaining(),
            (start.remaining() - 1) as nat,
        );
        assert(home.with_cursor(terminal.fields[index as int % count].start)
            == terminal.with_cursor(terminal.fields[index as int % count].start));
    }
}

/// On a screen without fields every move to the next field leads to the
/// first cell.
proof fn lemma_seek_nowhere(terminal: TerminalView, index: u8, remaining: u8)
    requires
        terminal.well_formed(),
        terminal.fields.len() == 0,
        terminal.cursor == origin(),
        remaining >= 1,
    ensures
        ({
            let operation = seeking(index, remaining);
            let (after, finished) = terminal.run(operation, operation.remaining());
            &&& after == terminal
            &&& finished.result == ExecutionResultView::Success(ProviderOutputView::Done)
        }),
    decreases remaining,
{
    reveal(ProviderOperationView::accept);
    let operation = seeking(index, remaining);
    let unit = ExecutionResultView::Success(CommandOutputView::Unit);
    assert(terminal.next_field() == origin());
    assert(terminal.with_cursor(origin()) == terminal);
    lemma_run_step(terminal, operation, operation.remaining());
    if remaining > 1 {
        lemma_seek_nowhere(terminal, index, (remaining - 1) as u8);
    } else {
        lemma_run_finished(terminal, operation.accept(unit), 1);
    }
}

/// The count of the fields, while it advances: the cursor is on field number
/// `count`, counted from one, and the advances so far were as many.
pub open spec fn counting(saved: Position, anchor: Position, count: u8) -> ProviderOperationView {
    ProviderOperationView {
        request: ProviderRequestView::GetFieldsCount,
        stage: Stage::CountAdvance { saved, anchor, count },
        result: ExecutionResultView::Unset,
    }
}

/// The count that the provider reports for a screen of `fields` fields: one
/// for a screen without fields, on which every move leads to the first cell;
/// the number of fields up to the most advances that a count makes; and zero
/// beyond, where the count gives up.
pub open spec fn reported_count(fields: nat) -> u8 {
    if fields == 0 {
        1
    } else if fields <= MAX_FIELD_ADVANCES {
        fields as u8
    } else {
        0
    }
}

/// From any field on, the count runs to its end, reports the number of
/// fields, and leaves the cursor where it was before the count began.
proof fn lemma_count_from(terminal: TerminalView, saved: Position, count: u8)
    requires
        terminal.well_formed(),
        terminal.holds(saved),
        1 <= count <= terminal.fields.len(),
        terminal.cursor == terminal.fields[count - 1].start,
    ensures
        ({
            let operation = counting(saved, terminal.fields[0].start, count);
            let (after, finished) = terminal.run(operation, operation.remaining());
            &&& after == terminal.with_cursor(saved)
            &&& finished.result == ExecutionResultView::Success(
                ProviderOutputView::Count(reported_count(terminal.fields.len())),
            )
        }),
    decreases MAX_FIELD_ADVANCES - count,
{
    reveal(ProviderOperationView::accept);
    let request = ProviderRequestView::GetFieldsCount;
    let unset = ExecutionResultView::<ProviderOutputView>::Unset;
    let fields = terminal.fields;
    let anchor = fields[0].start;
    lemma_search_from_field_start(terminal, count - 1);
    lemma_search_from_field_start(terminal, 0);
    let operation = counting(saved, anchor, count);
    let steps = operation.remaining();
    let asking = ProviderOperationView {
        request,
        stage: Stage::CountPosition { saved, anchor, count },
        result: unset,
    };
    let to = if count < fields.len() {
        fields[count as int].start
    } else {
        anchor
    };
    let moved = terminal.with_cursor(to);
    assert(terminal.next_field() == to);
    assert(moved.with_cursor(saved) == terminal.with_cursor(saved));
    lemma_run_step(terminal, operation, steps);
    lemma_run_step(moved, asking, (steps - 1) as nat);
    if count < fields.len() && count < MAX_FIELD_ADVANCES {
        assert(to != anchor);
        lemma_count_from(moved, saved, (count + 1) as u8);
    } else {
        let found: u8 = if count < fields.len() {
            0
        } else {
            count
        };
        if count < fields.len() {
            assert(to != anchor);
        }
        let restore = ProviderOperationView {
            request,
            stage: Stage::Restore { saved, finding: Finding::Count(found) },
            result: unset,
        };
        let done = restore.accept(
            ExecutionResultView::Success(CommandOutputView::Unit),
        );
        lemma_run_step(moved, restore, (steps - 2) as nat);
        lemma_run_finished(terminal.with_cursor(saved), done, (steps - 3) as nat);
    }
}

/// Counting the fields leaves the terminal as it was, the cursor included,
/// and reports the number of fields of the screen.
///
/// A screen without fields does not keep the count going: every move leads
/// to the first cell, the count is back where it started after one advance,
/// and it reports one. A screen with more fields than a count advances makes
/// it give up and report zero.
pub proof fn lemma_fields_count(terminal: TerminalView)
    requires
        terminal.well_formed(),
    ensures
        terminal.perform(ProviderRequestView::GetFieldsCount) == (
            terminal,
            ExecutionResultView::Success(
                ProviderOutputView::Count(reported_count(terminal.fields.len())),
            ),
        ),
{
    reveal(ProviderOperationView::accept);
    let request = ProviderRequestView::GetFieldsCount;
    let saved = terminal.cursor;
    let anchor = terminal.first_field();
    let home = terminal.with_cursor(anchor);
    let unset = ExecutionResultView::<ProviderOutputView>::Unset;
    let start = ProviderOperationView::start(request);
    let first = ProviderOperationView { request, stage: Stage::CountFirst { saved }, result: unset };
    let second = ProviderOperationView {
        request,
        stage: Stage::CountAnchor { saved },
        result: unset,
    };
    let third = counting(saved, anchor, 1);
    let steps = start.remaining();
    lemma_run_step(terminal, start, steps);
    lemma_run_step(terminal, first, (steps - 1) as nat);
    lemma_run_step(home, second, (steps - 2) as nat);
    assert(terminal.run(start, steps) == home.run(third, (steps - 3) as nat));
    if terminal.fields.len() == 0 {
        let fourth = ProviderOperationView {
            request,
            stage: Stage::CountPosition { saved, anchor, count: 1 },
            result: unset,
        };
        let fifth = ProviderOperationView {
            request,
            stage: Stage::Restore { saved, finding: Finding::Count(1) },
            result: unset,
        };
        assert(home.next_field() == origin());
        assert(home.with_cursor(origin()) == home);
        lemma_run_step(home, third, (steps - 3) as nat);
        lemma_run_step(home, fourth, (steps - 4) as nat);
        lemma_run_step(home, fifth, (steps - 5) as nat);
        assert(home.with_cursor(saved) == terminal);
        let last = fifth.accept(ExecutionResultView::Success(CommandOutputView::Unit));
        assert(last.next_command() is None);
        assert(terminal.run(last, (steps - 6) as nat) == (terminal, last));
    } else {
        lemma_count_from(home, saved, 1);
        lemma_run_to_end(home, third, third.remaining(), (steps - 3) as nat);
        assert(home.with_cursor(saved) == terminal);
    }
}

} // verus!
