//! A terminal that lives in memory: a grid of cells, a cursor and a list of
//! fields, with an answer to every command.
//!
//! It stands in for the emulator where a session is to be tried without one,
//! and it is the ground on which the laws of the provider's operations are
//! stated. It keeps to a few plain rules. Every cell can be written. Text is
//! read and written within one row. Moving from field to field goes through
//! the fields in the order of the screen and wraps around; on a screen
//! without fields it leads to the first cell. The end of a field is its last
//! cell.

use crate::client_interface::CommandExecutor;
use crate::command::{Command, CommandOutput, CommandOutputView, CommandView};
use crate::execution_result::{ExecutionResult, ExecutionResultView};
use crate::provider_operation::{
    lemma_accept_progress,
    lemma_start_well_formed,
    Position,
    ProviderOperation,
    ProviderOperationView,
    ProviderOutput,
    ProviderOutputView,
    ProviderRequest,
    ProviderRequestView,
};
use crate::text::{from_chars, push_char, to_chars};
use vstd::prelude::*;

verus! {

/// What the terminal ends each line of a region with.
pub const CONTINUATION_MARKER: char = '\\';

/// What an empty cell holds.
pub const BLANK: char = ' ';

/// A field: its first cell and its last one. A field may run over the end of
/// a row into the rows below.
#[derive(Clone, Copy, Debug, PartialEq, Eq, Structural)]
pub struct FieldSpan {
    pub start: Position,
    pub end: Position,
}

/// Whether `a` comes before `b` in the order of the screen: row by row, and
/// from left to right in a row.
pub open spec fn precedes(a: Position, b: Position) -> bool {
    a.row < b.row || (a.row == b.row && a.column < b.column)
}

/// Whether `a` is `b` or comes before it.
pub open spec fn not_after(a: Position, b: Position) -> bool {
    a == b || precedes(a, b)
}

/// The first cell of the screen.
pub open spec fn origin() -> Position {
    Position { row: 0, column: 0 }
}

/// The index, from `from` on, of the first field that starts after
/// `cursor`, or the number of fields where none does.
pub open spec fn first_field_after(fields: Seq<FieldSpan>, cursor: Position, from: int) -> int
    decreases fields.len() - from,
{
    if from < 0 || from >= fields.len() {
        fields.len() as int
    } else if precedes(cursor, fields[from].start) {
        from
    } else {
        first_field_after(fields, cursor, from + 1)
    }
}

/// The index, from `from` on, of the first field that does not start before
/// `cursor`, or the number of fields where they all do.
pub open spec fn first_field_not_before(
    fields: Seq<FieldSpan>,
    cursor: Position,
    from: int,
) -> int
    decreases fields.len() - from,
{
    if from < 0 || from >= fields.len() {
        fields.len() as int
    } else if !precedes(fields[from].start, cursor) {
        from
    } else {
        first_field_not_before(fields, cursor, from + 1)
    }
}

/// The mathematical value of a [`VirtualTerminal`].
pub struct TerminalView {
    pub rows: u8,
    pub columns: u8,
    /// The cells, row by row.
    pub cells: Seq<Seq<char>>,
    pub cursor: Position,
    /// The fields, in the order of the screen.
    pub fields: Seq<FieldSpan>,
}

impl TerminalView {
    /// Whether `position` is a cell of the screen.
    pub open spec fn holds(self, position: Position) -> bool {
        position.row < self.rows && position.column < self.columns
    }

    /// Whether the terminal is one: it has cells, the cursor is on one of
    /// them, and the fields lie on the screen one after the other.
    pub open spec fn well_formed(self) -> bool {
        &&& self.rows >= 1
        &&& self.columns >= 1
        &&& self.cells.len() == self.rows
        &&& forall|r: int| 0 <= r < self.rows ==> (#[trigger] self.cells[r]).len() == self.columns
        &&& self.holds(self.cursor)
        &&& forall|i: int|
            0 <= i < self.fields.len() ==> self.holds((#[trigger] self.fields[i]).start)
                && self.holds(self.fields[i].end) && not_after(
                self.fields[i].start,
                self.fields[i].end,
            )
        &&& forall|i: int, j: int|
            0 <= i < j < self.fields.len() ==> precedes(
                (#[trigger] self.fields[i]).end,
                (#[trigger] self.fields[j]).start,
            )
    }

    /// Where moving to the first field leads.
    pub open spec fn first_field(self) -> Position {
        if self.fields.len() == 0 {
            origin()
        } else {
            self.fields[0].start
        }
    }

    /// Where moving to the next field leads: to the first field that starts
    /// after the cursor, or around to the first field of all.
    pub open spec fn next_field(self) -> Position {
        let at = first_field_after(self.fields, self.cursor, 0);
        if at < self.fields.len() {
            self.fields[at].start
        } else {
            self.first_field()
        }
    }

    /// Where moving to the previous field leads: to the last field that
    /// starts before the cursor, or around to the last field of all.
    pub open spec fn previous_field(self) -> Position {
        let at = first_field_not_before(self.fields, self.cursor, 0);
        if self.fields.len() == 0 {
            origin()
        } else if at > 0 {
            self.fields[at - 1].start
        } else {
            self.fields[self.fields.len() - 1].start
        }
    }

    /// The index of the field that the cursor is in, if it is in one.
    pub open spec fn field_at_cursor(self) -> Option<int> {
        let at = first_field_after(self.fields, self.cursor, 0);
        if at > 0 && not_after(self.cursor, self.fields[at - 1].end) {
            Some(at - 1)
        } else {
            None
        }
    }

    /// The terminal with the cursor at `cursor`.
    pub open spec fn with_cursor(self, cursor: Position) -> TerminalView {
        TerminalView { cursor, ..self }
    }

    /// Whether `text` fits in the cursor's row from the cursor on.
    pub open spec fn takes(self, text: Seq<char>) -> bool {
        self.cursor.column + text.len() <= self.columns
    }

    /// Whether `length` cells from `position` on lie in one row of the
    /// screen.
    pub open spec fn spans(self, position: Position, length: int) -> bool {
        self.holds(position) && position.column + length <= self.columns
    }

    /// The row `row` with `text` written from column `column` on.
    pub open spec fn row_with(self, row: int, column: int, text: Seq<char>) -> Seq<char> {
        Seq::new(
            self.cells[row].len(),
            |c: int|
                if column <= c < column + text.len() {
                    text[c - column]
                } else {
                    self.cells[row][c]
                },
        )
    }

    /// Where the cursor is after `length` cells were typed from it on: behind
    /// the last of them, at the start of the next row where the row is full,
    /// and at the first cell where the screen is.
    pub open spec fn cursor_after(self, length: int) -> Position {
        if self.cursor.column + length < self.columns {
            Position { row: self.cursor.row, column: (self.cursor.column + length) as u8 }
        } else if self.cursor.row + 1 < self.rows {
            Position { row: (self.cursor.row + 1) as u8, column: 0 }
        } else {
            origin()
        }
    }

    /// The terminal after `text` was typed at the cursor.
    pub open spec fn typed(self, text: Seq<char>) -> TerminalView {
        TerminalView {
            cells: self.cells.update(
                self.cursor.row as int,
                self.row_with(self.cursor.row as int, self.cursor.column as int, text),
            ),
            cursor: self.cursor_after(text.len() as int),
            ..self
        }
    }

    /// The cells with those of `field` blank.
    pub open spec fn cleared(self, field: FieldSpan) -> Seq<Seq<char>> {
        Seq::new(
            self.cells.len(),
            |r: int|
                Seq::new(
                    self.cells[r].len(),
                    |c: int|
                        {
                            let here = Position { row: r as u8, column: c as u8 };
                            if not_after(field.start, here) && not_after(here, field.end) {
                                BLANK
                            } else {
                                self.cells[r][c]
                            }
                        },
                ),
        )
    }

    /// The lines of the region of `width` columns and `height` rows whose
    /// first cell is `position`, each with the marker behind it.
    pub open spec fn region(self, position: Position, width: int, height: int) -> Seq<Seq<char>> {
        Seq::new(
            height as nat,
            |i: int|
                self.cells[position.row + i].subrange(
                    position.column as int,
                    position.column + width,
                ).push(CONTINUATION_MARKER),
        )
    }

    /// The terminal after `command`, and what it answers.
    ///
    /// A command that leaves the screen is refused and changes nothing: a
    /// move of the cursor off the screen, a read that does not lie in one
    /// row or, for a region, on the screen, and text that does not fit in
    /// the cursor's row.
    pub open spec fn respond(self, command: CommandView) -> (
        TerminalView,
        ExecutionResultView<CommandOutputView>,
    ) {
        let done = ExecutionResultView::Success(CommandOutputView::Unit);
        let refused = ExecutionResultView::CommandFailure(None);
        match command {
            CommandView::ReadText { row, column, length } => {
                let from = Position { row, column };
                if self.spans(from, length as int) {
                    (
                        self,
                        ExecutionResultView::Success(
                            CommandOutputView::Text(
                                self.cells[row as int].subrange(column as int, column + length),
                            ),
                        ),
                    )
                } else {
                    (self, refused)
                }
            },
            CommandView::ReadTextRegion { row, column, width, height } => {
                let from = Position { row, column };
                if width >= 1 && height >= 1 && self.spans(from, width as int) && row + height
                    <= self.rows {
                    (
                        self,
                        ExecutionResultView::Success(
                            CommandOutputView::Lines(self.region(from, width as int, height as int)),
                        ),
                    )
                } else {
                    (self, refused)
                }
            },
            CommandView::MoveCursor { row, column } => {
                let to = Position { row, column };
                if self.holds(to) {
                    (self.with_cursor(to), done)
                } else {
                    (self, refused)
                }
            },
            CommandView::WriteText { text } => if self.takes(text) {
                (self.typed(text), done)
            } else {
                (self, refused)
            },
            CommandView::MoveToNextField => (self.with_cursor(self.next_field()), done),
            CommandView::MoveToPreviousField => (self.with_cursor(self.previous_field()), done),
            CommandView::MoveToFirstField => (self.with_cursor(self.first_field()), done),
            CommandView::SendEnter => (self, done),
            CommandView::ClearField => match self.field_at_cursor() {
                Some(at) => (
                    TerminalView {
                        cells: self.cleared(self.fields[at]),
                        cursor: self.fields[at].start,
                        ..self
                    },
                    done,
                ),
                None => (self, done),
            },
            CommandView::MoveToFieldEnd => match self.field_at_cursor() {
                Some(at) => (self.with_cursor(self.fields[at].end), done),
                None => (self, done),
            },
            CommandView::WaitForInputField | CommandView::WaitForUnlock => (
                self,
                ExecutionResultView::Success(CommandOutputView::Flag(true)),
            ),
            CommandView::ReadCursorPosition => (
                self,
                ExecutionResultView::Success(
                    CommandOutputView::Cursor(self.cursor.row, self.cursor.column),
                ),
            ),
        }
    }
}

impl TerminalView {
    /// The terminal and the operation after the next exchanges of the
    /// operation, `steps` of them at most, each answered by the terminal.
    pub open spec fn run(self, operation: ProviderOperationView, steps: nat) -> (
        TerminalView,
        ProviderOperationView,
    )
        decreases steps,
    {
        if steps == 0 {
            (self, operation)
        } else {
            match operation.next_command() {
                None => (self, operation),
                Some(command) => {
                    let (next, response) = self.respond(command);
                    next.run(operation.accept(response), (steps - 1) as nat)
                },
            }
        }
    }

    /// The terminal after the provider carried out `request` on it, and what
    /// the provider reports.
    pub open spec fn perform(self, request: ProviderRequestView) -> (
        TerminalView,
        ExecutionResultView<ProviderOutputView>,
    ) {
        let operation = ProviderOperationView::start(request);
        let (terminal, finished) = self.run(operation, operation.remaining());
        (terminal, finished.result)
    }
}

/// Once an operation has as many steps as it can still take, more steps
/// change nothing: it runs to its end either way.
pub proof fn lemma_run_to_end(
    terminal: TerminalView,
    operation: ProviderOperationView,
    steps: nat,
    more: nat,
)
    requires
        operation.well_formed(),
        operation.remaining() <= steps <= more,
    ensures
        terminal.run(operation, steps) == terminal.run(operation, more),
        terminal.run(operation, steps).1.finished(),
        terminal.run(operation, steps).1.well_formed(),
    decreases steps,
{
    lemma_accept_progress(operation, ExecutionResultView::Unset);
    if steps > 0 {
        match operation.next_command() {
            None => {},
            Some(command) => {
                let (next, response) = terminal.respond(command);
                lemma_accept_progress(operation, response);
                lemma_run_to_end(
                    next,
                    operation.accept(response),
                    (steps - 1) as nat,
                    (more - 1) as nat,
                );
            },
        }
    }
}

/// What the search for the first field after the cursor finds: every field
/// before it starts at the cursor or before, and the field it names, if it
/// names one, starts after the cursor.
pub proof fn lemma_first_field_after(fields: Seq<FieldSpan>, cursor: Position, from: int)
    requires
        0 <= from <= fields.len(),
    ensures
        from <= first_field_after(fields, cursor, from) <= fields.len(),
        forall|j: int|
            from <= j < first_field_after(fields, cursor, from) ==> !precedes(
                cursor,
                (#[trigger] fields[j]).start,
            ),
        first_field_after(fields, cursor, from) < fields.len() ==> precedes(
            cursor,
            fields[first_field_after(fields, cursor, from)].start,
        ),
    decreases fields.len() - from,
{
    if from < fields.len() && !precedes(cursor, fields[from].start) {
        lemma_first_field_after(fields, cursor, from + 1);
    }
}

/// What the search for the first field not before the cursor finds: every
/// field before it starts before the cursor, and the field it names, if it
/// names one, does not.
pub proof fn lemma_first_field_not_before(fields: Seq<FieldSpan>, cursor: Position, from: int)
    requires
        0 <= from <= fields.len(),
    ensures
        from <= first_field_not_before(fields, cursor, from) <= fields.len(),
        forall|j: int|
            from <= j < first_field_not_before(fields, cursor, from) ==> precedes(
                (#[trigger] fields[j]).start,
                cursor,
            ),
        first_field_not_before(fields, cursor, from) < fields.len() ==> !precedes(
            fields[first_field_not_before(fields, cursor, from)].start,
            cursor,
        ),
    decreases fields.len() - from,
{
    if from < fields.len() && precedes(fields[from].start, cursor) {
        lemma_first_field_not_before(fields, cursor, from + 1);
    }
}

/// A command leaves a terminal a terminal, with the size and the fields it
/// had.
pub proof fn lemma_respond_well_formed(terminal: TerminalView, command: CommandView)
    requires
        terminal.well_formed(),
    ensures
        terminal.respond(command).0.well_formed(),
        terminal.respond(command).0.rows == terminal.rows,
        terminal.respond(command).0.columns == terminal.columns,
        terminal.respond(command).0.fields == terminal.fields,
        !(terminal.respond(command).1 is Unset),
        terminal.respond(command).1 matches ExecutionResultView::Success(output) ==> output.kind()
            == command.output_kind(),
{
    lemma_first_field_after(terminal.fields, terminal.cursor, 0);
    lemma_first_field_not_before(terminal.fields, terminal.cursor, 0);
}

/// A terminal in memory.
pub struct VirtualTerminal {
    rows: u8,
    columns: u8,
    cells: Vec<Vec<char>>,
    cursor: Position,
    fields: Vec<FieldSpan>,
}

impl View for VirtualTerminal {
    type V = TerminalView;

    closed spec fn view(&self) -> TerminalView {
        TerminalView {
            rows: self.rows,
            columns: self.columns,
            cells: Seq::new(self.cells@.len(), |r: int| self.cells@[r]@),
            cursor: self.cursor,
            fields: self.fields@,
        }
    }
}

/// A copy of `row` with `text` written from column `column` on.
fn row_with_text(row: &Vec<char>, column: usize, text: &Vec<char>) -> (out: Vec<char>)
    requires
        column + text.len() <= row.len(),
    ensures
        out@ == Seq::new(
            row@.len(),
            |c: int|
                if column <= c < column + text@.len() {
                    text@[c - column]
                } else {
                    row@[c]
                },
        ),
{
    let mut out: Vec<char> = Vec::new();
    let mut c: usize = 0;
    while c < row.len()
        invariant
            c <= row.len(),
            column + text.len() <= row.len(),
            out.len() == c,
            forall|k: int|
                0 <= k < c ==> #[trigger] out@[k] == if column <= k < column + text@.len() {
                    text@[k - column]
                } else {
                    row@[k]
                },
        decreases row.len() - c,
    {
        if column <= c && c - column < text.len() {
            out.push(text[c - column]);
        } else {
            out.push(row[c]);
        }
        c += 1;
    }
    assert(out@ =~= Seq::new(
        row@.len(),
        |c: int|
            if column <= c < column + text@.len() {
                text@[c - column]
            } else {
                row@[c]
            },
    ));
    out
}

/// Whether `a` comes before `b` in the order of the screen.
fn comes_before(a: Position, b: Position) -> (yes: bool)
    ensures
        yes == precedes(a, b),
{
    a.row < b.row || (a.row == b.row && a.column < b.column)
}

/// Whether `a` is `b` or comes before it.
fn comes_not_after(a: Position, b: Position) -> (yes: bool)
    ensures
        yes == not_after(a, b),
{
    (a.row == b.row && a.column == b.column) || comes_before(a, b)
}

impl VirtualTerminal {
    #[verifier::type_invariant]
    closed spec fn sound(&self) -> bool {
        self@.well_formed()
    }

    /// A blank screen of `rows` rows and `columns` columns without fields,
    /// with the cursor on its first cell; nothing where it would have no
    /// cell.
    pub fn new(rows: u8, columns: u8) -> (terminal: Option<VirtualTerminal>)
        ensures
            terminal is Some <==> rows >= 1 && columns >= 1,
            terminal matches Some(t) ==> t@.well_formed() && t@.rows == rows && t@.columns
                == columns && t@.cursor == origin() && t@.fields.len() == 0 && forall|
                r: int,
                c: int,
            | 0 <= r < rows && 0 <= c < columns ==> t@.cells[r][c] == BLANK,
    {
        if rows == 0 || columns == 0 {
            return None;
        }
        let mut cells: Vec<Vec<char>> = Vec::new();
        let mut r: u8 = 0;
        while r < rows
            invariant
                r <= rows,
                cells.len() == r,
                forall|i: int| 0 <= i < r ==> (#[trigger] cells@[i])@.len() == columns,
                forall|i: int, c: int| 0 <= i < r && 0 <= c < columns ==> cells@[i]@[c] == BLANK,
            decreases rows - r,
        {
            let mut row: Vec<char> = Vec::new();
            let mut c: u8 = 0;
            while c < columns
                invariant
                    c <= columns,
                    row.len() == c,
                    forall|k: int| 0 <= k < c ==> row@[k] == BLANK,
                decreases columns - c,
            {
                row.push(BLANK);
                c += 1;
            }
            cells.push(row);
            r += 1;
        }
        let terminal = VirtualTerminal {
            rows,
            columns,
            cells,
            cursor: Position { row: 0, column: 0 },
            fields: Vec::new(),
        };
        Some(terminal)
    }

    /// The number of rows.
    pub fn rows(&self) -> (rows: u8)
        ensures
            rows == self@.rows,
    {
        self.rows
    }

    /// The number of columns.
    pub fn columns(&self) -> (columns: u8)
        ensures
            columns == self@.columns,
    {
        self.columns
    }

    /// Where the cursor is.
    pub fn cursor(&self) -> (cursor: Position)
        ensures
            cursor == self@.cursor,
            self@.holds(cursor),
    {
        proof {
            use_type_invariant(self);
        }
        self.cursor
    }

    /// The number of fields.
    pub fn field_count(&self) -> (count: usize)
        ensures
            count == self@.fields.len(),
    {
        self.fields.len()
    }

    /// The text of row `row`, if the screen has such a row.
    pub fn row_text(&self, row: u8) -> (text: Option<String>)
        ensures
            self@.well_formed(),
            text is Some <==> row < self@.rows,
            text matches Some(t) ==> t@ == self@.cells[row as int],
    {
        proof {
            use_type_invariant(self);
        }
        if row < self.rows {
            let cells = &self.cells[row as usize];
            assert(cells@.subrange(0, cells@.len() as int) == cells@);
            Some(from_chars(cells, 0, cells.len()))
        } else {
            None
        }
    }

    /// The cells with row `row` replaced by `line`.
    fn cells_with_row(&self, row: usize, line: &Vec<char>) -> (cells: Vec<Vec<char>>)
        requires
            row < self.cells.len(),
        ensures
            cells.len() == self.cells.len(),
            forall|r: int|
                0 <= r < cells.len() ==> (#[trigger] cells@[r])@ == if r == row {
                    line@
                } else {
                    self.cells@[r]@
                },
    {
        let empty: Vec<char> = Vec::new();
        let mut cells: Vec<Vec<char>> = Vec::new();
        let mut r: usize = 0;
        while r < self.cells.len()
            invariant
                r <= self.cells.len(),
                row < self.cells.len(),
                empty.len() == 0,
                cells.len() == r,
                forall|k: int|
                    0 <= k < r ==> (#[trigger] cells@[k])@ == if k == row {
                        line@
                    } else {
                        self.cells@[k]@
                    },
            decreases self.cells.len() - r,
        {
            if r == row {
                let copy = row_with_text(line, 0, &empty);
                assert(copy@ =~= line@);
                cells.push(copy);
            } else {
                let copy = row_with_text(&self.cells[r], 0, &empty);
                assert(copy@ =~= self.cells@[r as int]@);
                cells.push(copy);
            }
            r += 1;
        }
        cells
    }

    /// A copy of the fields with `field` behind them.
    fn fields_with(&self, field: FieldSpan) -> (fields: Vec<FieldSpan>)
        ensures
            fields@ == self.fields@.push(field),
    {
        let mut fields: Vec<FieldSpan> = Vec::new();
        let mut i: usize = 0;
        while i < self.fields.len()
            invariant
                i <= self.fields.len(),
                fields@ == self.fields@.take(i as int),
            decreases self.fields.len() - i,
        {
            fields.push(self.fields[i]);
            assert(self.fields@.take(i + 1) == self.fields@.take(i as int).push(
                self.fields@[i as int],
            ));
            i += 1;
        }
        assert(self.fields@.take(self.fields.len() as int) == self.fields@);
        fields.push(field);
        fields
    }

    /// Whether `position` is a cell of the screen.
    pub fn holds(&self, position: Position) -> (yes: bool)
        ensures
            yes == self@.holds(position),
    {
        position.row < self.rows && position.column < self.columns
    }

    /// Adds a field from `start` to `end`, both included, and says whether
    /// it did. A field is added where both cells are on the screen, `start`
    /// is not after `end`, and the field lies after the fields that are
    /// there.
    pub fn add_field(&mut self, start: Position, end: Position) -> (added: bool)
        ensures
            final(self)@.well_formed(),
            added <==> old(self)@.holds(start) && old(self)@.holds(end) && not_after(start, end)
                && (old(self)@.fields.len() > 0 ==> precedes(
                old(self)@.fields[old(self)@.fields.len() - 1].end,
                start,
            )),
            added ==> final(self)@ == (TerminalView {
                fields: old(self)@.fields.push(FieldSpan { start, end }),
                ..old(self)@
            }),
            !added ==> final(self)@ == old(self)@,
    {
        proof {
            use_type_invariant(&*self);
        }
        let fits = self.holds(start) && self.holds(end) && comes_not_after(start, end);
        let follows = self.fields.len() == 0 || comes_before(
            self.fields[self.fields.len() - 1].end,
            start,
        );
        if fits && follows {
            let fields = self.fields_with(FieldSpan { start, end });
            proof {
                let before = self.fields@;
                let after = fields@;
                assert forall|i: int, j: int| 0 <= i < j < after.len() implies precedes(
                    (#[trigger] after[i]).end,
                    (#[trigger] after[j]).start,
                ) by {
                    if j < before.len() {
                        assert(after[i] == before[i]);
                        assert(after[j] == before[j]);
                    } else {
                        assert(after[i] == before[i]);
                        if i < before.len() - 1 {
                            assert(precedes(before[i].end, before[before.len() - 1].start));
                        }
                    }
                }
                assert forall|i: int| 0 <= i < after.len() implies self@.holds(
                    (#[trigger] after[i]).start,
                ) && self@.holds(after[i].end) && not_after(after[i].start, after[i].end) by {
                    if i < before.len() {
                        assert(after[i] == before[i]);
                    }
                }
            }
            self.fields = fields;
            true
        } else {
            false
        }
    }

    /// Puts `text` into the cells of row `row` from column `column` on,
    /// where it fits in the row, and says whether it did. The cursor stays.
    pub fn put_text(&mut self, row: u8, column: u8, text: &str) -> (put: bool)
        ensures
            final(self)@.well_formed(),
            put <==> row < old(self)@.rows && column + text@.len() <= old(self)@.columns,
            put ==> final(self)@ == (TerminalView {
                cells: old(self)@.cells.update(
                    row as int,
                    old(self)@.row_with(row as int, column as int, text@),
                ),
                ..old(self)@
            }),
            !put ==> final(self)@ == old(self)@,
    {
        proof {
            use_type_invariant(&*self);
        }
        let chars = to_chars(text);
        if row < self.rows && column <= self.columns && chars.len() <= (self.columns
            - column) as usize {
            let line = row_with_text(&self.cells[row as usize], column as usize, &chars);
            let ghost before = self@;
            let cells = self.cells_with_row(row as usize, &line);
            assert forall|r: int| 0 <= r < cells.len() implies (#[trigger] cells@[r])@.len()
                == self.columns by {
                assert(self@.cells[r] == self.cells@[r]@);
            }
            self.cells = cells;
            assert(self@.cells =~= before.cells.update(
                row as int,
                before.row_with(row as int, column as int, text@),
            ));
            true
        } else {
            false
        }
    }

    /// The index of the first field that starts after the cursor, or the
    /// number of fields.
    fn field_after_cursor(&self) -> (at: usize)
        ensures
            at == first_field_after(self.fields@, self.cursor, 0),
            at <= self.fields.len(),
    {
        let mut at: usize = 0;
        while at < self.fields.len() && !comes_before(self.cursor, self.fields[at].start)
            invariant
                at <= self.fields.len(),
                first_field_after(self.fields@, self.cursor, 0) == first_field_after(
                    self.fields@,
                    self.cursor,
                    at as int,
                ),
            decreases self.fields.len() - at,
        {
            at += 1;
        }
        at
    }

    /// The index of the first field that does not start before the cursor,
    /// or the number of fields.
    fn field_not_before_cursor(&self) -> (at: usize)
        ensures
            at == first_field_not_before(self.fields@, self.cursor, 0),
            at <= self.fields.len(),
    {
        let mut at: usize = 0;
        while at < self.fields.len() && comes_before(self.fields[at].start, self.cursor)
            invariant
                at <= self.fields.len(),
                first_field_not_before(self.fields@, self.cursor, 0) == first_field_not_before(
                    self.fields@,
                    self.cursor,
                    at as int,
                ),
            decreases self.fields.len() - at,
        {
            at += 1;
        }
        at
    }

    /// The field that the cursor is in, if it is in one.
    fn field_under_cursor(&self) -> (field: Option<FieldSpan>)
        ensures
            match field {
                Some(f) => self@.field_at_cursor() is Some && f
                    == self@.fields[self@.field_at_cursor()->0],
                None => self@.field_at_cursor() is None,
            },
    {
        let at = self.field_after_cursor();
        if at > 0 && comes_not_after(self.cursor, self.fields[at - 1].end) {
            Some(self.fields[at - 1])
        } else {
            None
        }
    }

    /// The first cell of the first field, or of the screen where it has no
    /// field.
    fn first_field_start(&self) -> (to: Position)
        ensures
            to == self@.first_field(),
    {
        if self.fields.len() == 0 {
            Position { row: 0, column: 0 }
        } else {
            self.fields[0].start
        }
    }

    /// The lines of a region that lies on the screen.
    fn read_region(&self, row: u8, column: u8, width: u8, height: u8) -> (lines: Vec<String>)
        requires
            self@.well_formed(),
            self@.spans(Position { row, column }, width as int),
            row + height <= self@.rows,
        ensures
            lines.deep_view() == self@.region(
                Position { row, column },
                width as int,
                height as int,
            ),
    {
        let mut lines: Vec<String> = Vec::new();
        let mut i: u8 = 0;
        while i < height
            invariant
                i <= height,
                self@.well_formed(),
                self@.spans(Position { row, column }, width as int),
                row + height <= self@.rows,
                lines.len() == i,
                forall|k: int|
                    0 <= k < i ==> (#[trigger] lines@[k])@ == self@.cells[row + k].subrange(
                        column as int,
                        column + width,
                    ).push(CONTINUATION_MARKER),
            decreases height - i,
        {
            let cells = &self.cells[(row + i) as usize];
            assert(cells@ == self@.cells[row + i]);
            let mut line = from_chars(cells, column as usize, column as usize + width as usize);
            push_char(&mut line, CONTINUATION_MARKER);
            lines.push(line);
            i += 1;
        }
        assert(lines.deep_view() =~= self@.region(
            Position { row, column },
            width as int,
            height as int,
        ));
        lines
    }

    /// The cells with those of `field` blank.
    fn cleared_cells(&self, field: FieldSpan) -> (cells: Vec<Vec<char>>)
        requires
            self@.well_formed(),
        ensures
            Seq::new(cells@.len(), |r: int| cells@[r]@) == self@.cleared(field),
    {
        let mut cells: Vec<Vec<char>> = Vec::new();
        let mut r: u8 = 0;
        while r < self.rows
            invariant
                r <= self.rows,
                self@.well_formed(),
                cells.len() == r,
                forall|k: int| 0 <= k < r ==> (#[trigger] cells@[k])@ == self@.cleared(field)[k],
            decreases self.rows - r,
        {
            let old_row = &self.cells[r as usize];
            assert(old_row@ == self@.cells[r as int]);
            let mut row: Vec<char> = Vec::new();
            let mut c: u8 = 0;
            while c < self.columns
                invariant
                    c <= self.columns,
                    r < self.rows,
                    self@.well_formed(),
                    old_row@ == self@.cells[r as int],
                    row.len() == c,
                    forall|k: int|
                        0 <= k < c ==> #[trigger] row@[k] == self@.cleared(field)[r as int][k],
                decreases self.columns - c,
            {
                let here = Position { row: r, column: c };
                if comes_not_after(field.start, here) && comes_not_after(here, field.end) {
                    row.push(BLANK);
                } else {
                    row.push(old_row[c as usize]);
                }
                c += 1;
            }
            assert(row@ =~= self@.cleared(field)[r as int]);
            cells.push(row);
            r += 1;
        }
        assert(Seq::new(cells@.len(), |r: int| cells@[r]@) =~= self@.cleared(field));
        cells
    }

    /// Where the cursor is after `length` cells were typed from it on.
    fn advanced_cursor(&self, length: usize) -> (to: Position)
        requires
            self@.well_formed(),
            self@.cursor.column + length <= self@.columns,
        ensures
            to == self@.cursor_after(length as int),
    {
        if self.cursor.column as usize + length < self.columns as usize {
            Position { row: self.cursor.row, column: (self.cursor.column as usize + length) as u8 }
        } else if self.cursor.row < self.rows - 1 {
            Position { row: self.cursor.row + 1, column: 0 }
        } else {
            Position { row: 0, column: 0 }
        }
    }
}

impl VirtualTerminal {
    /// Carries out `request` on this terminal, as a provider does on a
    /// session: every command that the operation asks for is answered by the
    /// terminal, until the operation is finished.
    pub fn perform(&mut self, request: ProviderRequest) -> (result: ExecutionResult<
        ProviderOutput,
    >)
        ensures
            (final(self)@, result@) == old(self)@.perform(request@),
            final(self)@.well_formed(),
    {
        let mut operation = ProviderOperation::new(request);
        let ghost start = operation@;
        proof {
            use_type_invariant(&*self);
            lemma_start_well_formed(request@);
        }
        loop
            invariant
                operation@.well_formed(),
                self@.well_formed(),
                old(self)@.run(start, start.remaining()) == self@.run(
                    operation@,
                    operation@.remaining(),
                ),
            ensures
                operation@.finished(),
                self@.well_formed(),
                old(self)@.run(start, start.remaining()) == (self@, operation@),
            decreases operation@.remaining(),
        {
            proof {
                lemma_accept_progress(operation@, ExecutionResultView::Unset);
            }
            match operation.next_command() {
                Some(command) => {
                    let ghost before = self@;
                    let ghost waiting = operation@;
                    let response = self.execute(command);
                    proof {
                        lemma_accept_progress(waiting, response@);
                        lemma_run_to_end(
                            self@,
                            waiting.accept(response@),
                            waiting.accept(response@).remaining(),
                            (waiting.remaining() - 1) as nat,
                        );
                    }
                    operation.accept(response);
                },
                None => {
                    break ;
                },
            }
        }
        operation.into_result()
    }
}

impl CommandExecutor for VirtualTerminal {
    /// Answers `command` as the terminal does.
    fn execute(&mut self, command: Command) -> (result: ExecutionResult<CommandOutput>)
        ensures
            (final(self)@, result@) == old(self)@.respond(command@),
            final(self)@.well_formed(),
    {
        proof {
            use_type_invariant(&*self);
            lemma_respond_well_formed(self@, command@);
        }
        let ghost before = self@;
        match command {
            Command::ReadText { row, column, length } => {
                if self.holds(Position { row, column }) && length <= self.columns - column {
                    let cells = &self.cells[row as usize];
                    assert(cells@ == self@.cells[row as int]);
                    ExecutionResult::Success(
                        CommandOutput::Text(
                            from_chars(cells, column as usize, column as usize + length as usize),
                        ),
                    )
                } else {
                    ExecutionResult::CommandFailure(None)
                }
            },
            Command::ReadTextRegion { row, column, width, height } => {
                if width >= 1 && height >= 1 && self.holds(Position { row, column }) && width
                    <= self.columns - column && height <= self.rows - row {
                    ExecutionResult::Success(
                        CommandOutput::Lines(self.read_region(row, column, width, height)),
                    )
                } else {
                    ExecutionResult::CommandFailure(None)
                }
            },
            Command::MoveCursor { row, column } => {
                if self.holds(Position { row, column }) {
                    self.cursor = Position { row, column };
                    ExecutionResult::Success(CommandOutput::Unit)
                } else {
                    ExecutionResult::CommandFailure(None)
                }
            },
            Command::WriteText { text } => {
                let chars = to_chars(text.as_str());
                if chars.len() <= (self.columns - self.cursor.column) as usize {
                    let row = self.cursor.row as usize;
                    let line = row_with_text(&self.cells[row], self.cursor.column as usize, &chars);
                    let cells = self.cells_with_row(row, &line);
                    let cursor = self.advanced_cursor(chars.len());
                    assert forall|r: int| 0 <= r < cells.len() implies (
                    #[trigger] cells@[r])@.len() == self.columns by {
                        assert(self@.cells[r] == self.cells@[r]@);
                    }
                    self.cells = cells;
                    self.cursor = cursor;
                    assert(self@.cells =~= before.typed(text@).cells);
                    ExecutionResult::Success(CommandOutput::Unit)
                } else {
                    ExecutionResult::CommandFailure(None)
                }
            },
            Command::MoveToNextField => {
                let at = self.field_after_cursor();
                let to = if at < self.fields.len() {
                    self.fields[at].start
                } else {
                    self.first_field_start()
                };
                self.cursor = to;
                ExecutionResult::Success(CommandOutput::Unit)
            },
            Command::MoveToPreviousField => {
                let at = self.field_not_before_cursor();
                let to = if self.fields.len() == 0 {
                    Position { row: 0, column: 0 }
                } else if at > 0 {
                    self.fields[at - 1].start
                } else {
                    self.fields[self.fields.len() - 1].start
                };
                self.cursor = to;
                ExecutionResult::Success(CommandOutput::Unit)
            },
            Command::MoveToFirstField => {
                let to = self.first_field_start();
                self.cursor = to;
                ExecutionResult::Success(CommandOutput::Unit)
            },
            Command::SendEnter => ExecutionResult::Success(CommandOutput::Unit),
            Command::ClearField => {
                match self.field_under_cursor() {
                    Some(field) => {
                        let cells = self.cleared_cells(field);
                        assert(cells.len() == self.rows && forall|r: int|
                            0 <= r < cells.len() ==> (#[trigger] cells@[r])@.len()
                                == self.columns) by {
                            let made = Seq::new(cells@.len(), |r: int| cells@[r]@);
                            assert(made.len() == self@.cleared(field).len());
                            assert forall|r: int| 0 <= r < cells.len() implies (
                            #[trigger] cells@[r])@.len() == self.columns by {
                                assert(made[r] == cells@[r]@);
                                assert(self@.cleared(field)[r].len() == self@.cells[r].len());
                            }
                        }
                        self.cells = cells;
                        self.cursor = field.start;
                    },
                    None => {},
                }
                ExecutionResult::Success(CommandOutput::Unit)
            },
            Command::MoveToFieldEnd => {
                match self.field_under_cursor() {
                    Some(field) => {
                        self.cursor = field.end;
                    },
                    None => {},
                }
                ExecutionResult::Success(CommandOutput::Unit)
            },
            Command::WaitForInputField | Command::WaitForUnlock => ExecutionResult::Success(
                CommandOutput::Flag(true),
            ),
            Command::ReadCursorPosition => ExecutionResult::Success(
                CommandOutput::Cursor(self.cursor.row, self.cursor.column),
            ),
        }
    }
}

} // verus!
