//! One screen operation as a sequence of exchanges: which command comes
//! next, and what the answers add up to.
//!
//! A [`ProviderOperation`] performs no exchange itself. Whoever owns the
//! session asks it for the next command, carries the exchange out, and hands
//! the result back, until no command is left. Every operation that moves the
//! cursor on its way first asks where the cursor is and puts it back there
//! before it reports anything. Where the remote side refuses one of its
//! commands, the operation still puts the cursor back and then reports the
//! refusal. A transport failure or a broken contract ends the operation at
//! once, and nothing more is sent.

use crate::command::{Command, CommandOutput, CommandOutputView, CommandView};
use crate::execution_result::{ContractViolation, ExecutionResult, ExecutionResultView};
use crate::text::{from_chars, to_chars};
use vstd::prelude::*;

verus! {

/// The number of columns of the screen that [`ProviderRequest::GetScreenText`]
/// reads.
pub const SCREEN_WIDTH: u8 = 80;

/// The number of rows of the screen that [`ProviderRequest::GetScreenText`]
/// reads.
pub const SCREEN_HEIGHT: u8 = 24;

/// The most advances from field to field that a count of the fields makes.
pub const MAX_FIELD_ADVANCES: u8 = 255;

/// A cell of the screen, which is also a place for the cursor.
#[derive(Clone, Copy, Debug, PartialEq, Eq, Structural)]
pub struct Position {
    pub row: u8,
    pub column: u8,
}

/// A field that lies in one row: where it starts and how many cells it has.
#[derive(Clone, Copy, Debug, PartialEq, Eq, Structural)]
pub struct FieldBounds {
    pub row: u8,
    pub column: u8,
    pub length: u16,
}

/// The field that the positions found around the cursor describe, if it can
/// be told as one row's bound.
///
/// `cursor` is where the cursor was, `start` where the field begins and `end`
/// where it ends. There is a bound when the field begins in the cursor's row
/// and the cursor's column lies between the two columns, both included.
pub open spec fn bounds_around(cursor: Position, start: Position, end: Position) -> Option<
    FieldBounds,
> {
    if start.row == cursor.row && start.column <= cursor.column && cursor.column <= end.column {
        Some(
            FieldBounds {
                row: start.row,
                column: start.column,
                length: (end.column - start.column + 1) as u16,
            },
        )
    } else {
        None
    }
}

/// A line without its last character, which is where a line of a region
/// carries its continuation marker.
pub open spec fn without_marker(line: Seq<char>) -> Seq<char> {
    if line.len() > 0 {
        line.drop_last()
    } else {
        line
    }
}

/// The lines of `lines`, each without its last character.
pub open spec fn without_markers(lines: Seq<Seq<char>>) -> Seq<Seq<char>> {
    Seq::new(lines.len(), |i: int| without_marker(lines[i]))
}

/// What is asked of the provider.
///
/// `x` is a column and `y` a row.
#[derive(Clone, Debug, PartialEq, Eq)]
pub enum ProviderRequest {
    /// The text of the whole screen, one line for each row.
    GetScreenText,
    /// The text of `length` cells from column `x` of row `y` on.
    GetTextAtLocation { x: u8, y: u8, length: u8 },
    /// The number of fields that moving from field to field goes through
    /// before it is back at the first one.
    GetFieldsCount,
    /// The bound of the field that the cursor is in.
    GetFieldVector,
    /// Writes `text` from column `x` of row `y` on.
    SetTextAtLocation { x: u8, y: u8, text: String },
    /// Moves the cursor to the first field and from there `index` fields on.
    MoveToFieldIndex { index: u8 },
}

/// The mathematical value of a [`ProviderRequest`].
pub enum ProviderRequestView {
    GetScreenText,
    GetTextAtLocation { x: u8, y: u8, length: u8 },
    GetFieldsCount,
    GetFieldVector,
    SetTextAtLocation { x: u8, y: u8, text: Seq<char> },
    MoveToFieldIndex { index: u8 },
}

impl View for ProviderRequest {
    type V = ProviderRequestView;

    open spec fn view(&self) -> ProviderRequestView {
        match *self {
            ProviderRequest::GetScreenText => ProviderRequestView::GetScreenText,
            ProviderRequest::GetTextAtLocation { x, y, length } => {
                ProviderRequestView::GetTextAtLocation { x, y, length }
            },
            ProviderRequest::GetFieldsCount => ProviderRequestView::GetFieldsCount,
            ProviderRequest::GetFieldVector => ProviderRequestView::GetFieldVector,
            ProviderRequest::SetTextAtLocation { x, y, text } => {
                ProviderRequestView::SetTextAtLocation { x, y, text: text@ }
            },
            ProviderRequest::MoveToFieldIndex { index } => ProviderRequestView::MoveToFieldIndex {
                index,
            },
        }
    }
}

/// What an operation that restores the cursor reports once the cursor is
/// back.
#[derive(Clone, Copy, Debug, PartialEq, Eq, Structural)]
pub enum Finding {
    Written,
    Count(u8),
    Bounds(Option<FieldBounds>),
    /// The remote side refused a command on the way. The refusal is kept as
    /// the result of the operation while the cursor goes back.
    Refused,
}

/// What a provider operation brings back.
#[derive(Clone, Debug, PartialEq, Eq)]
pub enum ProviderOutput {
    /// The operation was carried out and has nothing to report.
    Done,
    Text(String),
    Lines(Vec<String>),
    Count(u8),
    Bounds(Option<FieldBounds>),
}

/// The mathematical value of a [`ProviderOutput`].
pub enum ProviderOutputView {
    Done,
    Text(Seq<char>),
    Lines(Seq<Seq<char>>),
    Count(u8),
    Bounds(Option<FieldBounds>),
}

impl View for ProviderOutput {
    type V = ProviderOutputView;

    open spec fn view(&self) -> ProviderOutputView {
        match *self {
            ProviderOutput::Done => ProviderOutputView::Done,
            ProviderOutput::Text(text) => ProviderOutputView::Text(text@),
            ProviderOutput::Lines(lines) => ProviderOutputView::Lines(lines.deep_view()),
            ProviderOutput::Count(count) => ProviderOutputView::Count(count),
            ProviderOutput::Bounds(bounds) => ProviderOutputView::Bounds(bounds),
        }
    }
}

impl Finding {
    /// The finding as the output of the operation.
    pub open spec fn output(self) -> ProviderOutputView {
        match self {
            Finding::Written => ProviderOutputView::Done,
            Finding::Count(count) => ProviderOutputView::Count(count),
            Finding::Bounds(bounds) => ProviderOutputView::Bounds(bounds),
            Finding::Refused => ProviderOutputView::Done,
        }
    }
}

impl Stage {
    /// Where the cursor was when the operation began, at the stages between
    /// saving the cursor and putting it back.
    pub open spec fn saved(self) -> Option<Position> {
        match self {
            Stage::MoveToTarget { saved }
            | Stage::Write { saved }
            | Stage::CountFirst { saved }
            | Stage::CountAnchor { saved }
            | Stage::CountAdvance { saved, .. }
            | Stage::CountPosition { saved, .. }
            | Stage::BoundsAdvance { saved }
            | Stage::BoundsRetreat { saved }
            | Stage::BoundsStart { saved }
            | Stage::BoundsFieldEnd { saved, .. }
            | Stage::BoundsEnd { saved, .. } => Some(saved),
            _ => None,
        }
    }
}

/// Where an operation stands: the exchange that it is waiting for, with what
/// it has learnt so far.
#[derive(Clone, Copy, Debug, PartialEq, Eq, Structural)]
pub enum Stage {
    /// Reading the whole screen.
    ReadScreen,
    /// Reading the cells asked for.
    ReadText,
    /// Asking where the cursor is, to put it back there at the end.
    SaveCursor,
    /// Moving the cursor to where the text goes.
    MoveToTarget { saved: Position },
    /// Typing the text.
    Write { saved: Position },
    /// Putting the cursor back where it was.
    Restore { saved: Position, finding: Finding },
    /// Moving to the first field, on the way to a field by its index.
    SeekFirst,
    /// Moving to the next field, with `remaining` moves to make, this one
    /// included.
    SeekNext { remaining: u8 },
    /// Moving to the first field, to count from there.
    CountFirst { saved: Position },
    /// Asking where the first field is.
    CountAnchor { saved: Position },
    /// Making advance number `count` to the next field.
    CountAdvance { saved: Position, anchor: Position, count: u8 },
    /// Asking where advance number `count` has led.
    CountPosition { saved: Position, anchor: Position, count: u8 },
    /// Moving to the next field, the first half of finding where the
    /// cursor's field starts.
    BoundsAdvance { saved: Position },
    /// Moving back one field, the second half.
    BoundsRetreat { saved: Position },
    /// Asking where the field starts.
    BoundsStart { saved: Position },
    /// Moving to the end of the field.
    BoundsFieldEnd { saved: Position, start: Position },
    /// Asking where the field ends.
    BoundsEnd { saved: Position, start: Position },
    /// Nothing is left to do.
    Finished,
}

/// The failure that a step passes on when the exchange it waited for did not
/// succeed. A result that is still unset breaks the contract of the step.
pub open spec fn passed_on<A, B>(response: ExecutionResultView<A>) -> ExecutionResultView<B> {
    match response {
        ExecutionResultView::IoError(description) => ExecutionResultView::IoError(description),
        ExecutionResultView::CommandFailure(diagnostic) => ExecutionResultView::CommandFailure(
            diagnostic,
        ),
        ExecutionResultView::ContractViolation(violation) => {
            ExecutionResultView::ContractViolation(violation)
        },
        ExecutionResultView::Unset => ExecutionResultView::ContractViolation(
            ContractViolation::UnsetResult,
        ),
        ExecutionResultView::Success(_) => ExecutionResultView::ContractViolation(
            ContractViolation::UnexpectedOutput,
        ),
    }
}

/// Whether `output` is the kind of value that `request` asks for.
pub open spec fn answers(request: ProviderRequestView, output: ProviderOutputView) -> bool {
    match request {
        ProviderRequestView::GetScreenText => output is Lines,
        ProviderRequestView::GetTextAtLocation { .. } => output is Text,
        ProviderRequestView::GetFieldsCount => output is Count,
        ProviderRequestView::GetFieldVector => output is Bounds && (output
            matches ProviderOutputView::Bounds(Some(bounds)) ==> 1 <= bounds.length
            && bounds.column + bounds.length <= 256),
        ProviderRequestView::SetTextAtLocation { .. } => output is Done,
        ProviderRequestView::MoveToFieldIndex { .. } => output is Done,
    }
}

/// The mathematical value of a [`ProviderOperation`].
pub struct ProviderOperationView {
    pub request: ProviderRequestView,
    pub stage: Stage,
    /// `Unset` until the operation is finished.
    pub result: ExecutionResultView<ProviderOutputView>,
}

impl ProviderOperationView {
    /// The operation that carries out `request`, before its first exchange.
    pub open spec fn start(request: ProviderRequestView) -> ProviderOperationView {
        ProviderOperationView {
            request,
            stage: match request {
                ProviderRequestView::GetScreenText => Stage::ReadScreen,
                ProviderRequestView::GetTextAtLocation { .. } => Stage::ReadText,
                ProviderRequestView::MoveToFieldIndex { .. } => Stage::SeekFirst,
                _ => Stage::SaveCursor,
            },
            result: ExecutionResultView::Unset,
        }
    }

    /// Whether nothing is left to do.
    pub open spec fn finished(self) -> bool {
        self.stage == Stage::Finished
    }

    /// The command whose result the operation is waiting for, or nothing
    /// when it is finished.
    pub open spec fn next_command(self) -> Option<CommandView> {
        match self.stage {
            Stage::ReadScreen => Some(
                CommandView::ReadTextRegion {
                    row: 0,
                    column: 0,
                    width: SCREEN_WIDTH,
                    height: SCREEN_HEIGHT,
                },
            ),
            Stage::ReadText => match self.request {
                ProviderRequestView::GetTextAtLocation { x, y, length } => Some(
                    CommandView::ReadText { row: y, column: x, length },
                ),
                _ => None,
            },
            Stage::SaveCursor
            | Stage::CountAnchor { .. }
            | Stage::CountPosition { .. }
            | Stage::BoundsStart { .. }
            | Stage::BoundsEnd { .. } => Some(CommandView::ReadCursorPosition),
            Stage::MoveToTarget { .. } => match self.request {
                ProviderRequestView::SetTextAtLocation { x, y, .. } => Some(
                    CommandView::MoveCursor { row: y, column: x },
                ),
                _ => None,
            },
            Stage::Write { .. } => match self.request {
                ProviderRequestView::SetTextAtLocation { text, .. } => Some(
                    CommandView::WriteText { text },
                ),
                _ => None,
            },
            Stage::Restore { saved, .. } => Some(
                CommandView::MoveCursor { row: saved.row, column: saved.column },
            ),
            Stage::SeekFirst | Stage::CountFirst { .. } => Some(CommandView::MoveToFirstField),
            Stage::SeekNext { .. }
            | Stage::CountAdvance { .. }
            | Stage::BoundsAdvance { .. } => Some(CommandView::MoveToNextField),
            Stage::BoundsRetreat { .. } => Some(CommandView::MoveToPreviousField),
            Stage::BoundsFieldEnd { .. } => Some(CommandView::MoveToFieldEnd),
            Stage::Finished => None,
        }
    }

    /// The operation, finished with `result`.
    pub open spec fn finish(
        self,
        result: ExecutionResultView<ProviderOutputView>,
    ) -> ProviderOperationView {
        ProviderOperationView { stage: Stage::Finished, result, ..self }
    }

    /// The operation at another stage.
    pub open spec fn at(self, stage: Stage) -> ProviderOperationView {
        ProviderOperationView { stage, ..self }
    }

    /// The operation after the exchange it was waiting for succeeded with
    /// `output`, which is of the kind that the command brings back.
    pub open spec fn proceed(self, output: CommandOutputView) -> ProviderOperationView {
        match (self.stage, output) {
            (Stage::ReadScreen, CommandOutputView::Lines(lines)) => self.finish(
                ExecutionResultView::Success(ProviderOutputView::Lines(without_markers(lines))),
            ),
            (Stage::ReadText, CommandOutputView::Text(text)) => self.finish(
                ExecutionResultView::Success(ProviderOutputView::Text(text)),
            ),
            (Stage::SaveCursor, CommandOutputView::Cursor(row, column)) => match self.request {
                ProviderRequestView::SetTextAtLocation { .. } => self.at(
                    Stage::MoveToTarget { saved: Position { row, column } },
                ),
                ProviderRequestView::GetFieldsCount => self.at(
                    Stage::CountFirst { saved: Position { row, column } },
                ),
                _ => self.at(Stage::BoundsAdvance { saved: Position { row, column } }),
            },
            (Stage::MoveToTarget { saved }, _) => self.at(Stage::Write { saved }),
            (Stage::Write { saved }, _) => self.at(
                Stage::Restore { saved, finding: Finding::Written },
            ),
            (Stage::Restore { finding, .. }, _) => if finding == Finding::Refused {
                self.finish(self.result)
            } else {
                self.finish(ExecutionResultView::Success(finding.output()))
            },
            (Stage::SeekFirst, _) => match self.request {
                ProviderRequestView::MoveToFieldIndex { index } if index > 0 => self.at(
                    Stage::SeekNext { remaining: index },
                ),
                _ => self.finish(ExecutionResultView::Success(ProviderOutputView::Done)),
            },
            (Stage::SeekNext { remaining }, _) => if remaining > 1 {
                self.at(Stage::SeekNext { remaining: (remaining - 1) as u8 })
            } else {
                self.finish(ExecutionResultView::Success(ProviderOutputView::Done))
            },
            (Stage::CountFirst { saved }, _) => self.at(Stage::CountAnchor { saved }),
            (Stage::CountAnchor { saved }, CommandOutputView::Cursor(row, column)) => self.at(
                Stage::CountAdvance { saved, anchor: Position { row, column }, count: 1 },
            ),
            (Stage::CountAdvance { saved, anchor, count }, _) => self.at(
                Stage::CountPosition { saved, anchor, count },
            ),
            (
                Stage::CountPosition { saved, anchor, count },
                CommandOutputView::Cursor(row, column),
            ) => if (Position { row, column }) == anchor {
                self.at(Stage::Restore { saved, finding: Finding::Count(count) })
            } else if count < MAX_FIELD_ADVANCES {
                self.at(Stage::CountAdvance { saved, anchor, count: (count + 1) as u8 })
            } else {
                self.at(Stage::Restore { saved, finding: Finding::Count(0) })
            },
            (Stage::BoundsAdvance { saved }, _) => self.at(Stage::BoundsRetreat { saved }),
            (Stage::BoundsRetreat { saved }, _) => self.at(Stage::BoundsStart { saved }),
            (Stage::BoundsStart { saved }, CommandOutputView::Cursor(row, column)) => if row
                != saved.row {
                self.at(Stage::Restore { saved, finding: Finding::Bounds(None) })
            } else {
                self.at(Stage::BoundsFieldEnd { saved, start: Position { row, column } })
            },
            (Stage::BoundsFieldEnd { saved, start }, _) => self.at(
                Stage::BoundsEnd { saved, start },
            ),
            (Stage::BoundsEnd { saved, start }, CommandOutputView::Cursor(row, column)) => self.at(
                Stage::Restore {
                    saved,
                    finding: Finding::Bounds(bounds_around(saved, start, Position { row, column })),
                },
            ),
            _ => self.finish(
                ExecutionResultView::ContractViolation(ContractViolation::UnexpectedOutput),
            ),
        }
    }

    /// The operation after the exchange it was waiting for ended with
    /// `response`.
    ///
    /// A success of the kind that the command brings back moves the
    /// operation on. A success of another kind breaks the contract. A
    /// refusal by the remote side while the cursor is away from where it was
    /// becomes the result, and the operation goes on to put the cursor back.
    /// Any other failure ends the operation with that failure; where putting
    /// the cursor back after a refusal fails too, the refusal stays the
    /// result. A finished operation takes nothing more.
    #[verifier::opaque]
    pub open spec fn accept(
        self,
        response: ExecutionResultView<CommandOutputView>,
    ) -> ProviderOperationView {
        match self.next_command() {
            None => self,
            Some(command) => match response {
                ExecutionResultView::Success(output) => if output.kind() == command.output_kind() {
                    self.proceed(output)
                } else {
                    self.finish(
                        ExecutionResultView::ContractViolation(ContractViolation::UnexpectedOutput),
                    )
                },
                ExecutionResultView::CommandFailure(diagnostic) => match self.stage.saved() {
                    Some(saved) => ProviderOperationView {
                        stage: Stage::Restore { saved, finding: Finding::Refused },
                        result: ExecutionResultView::CommandFailure(diagnostic),
                        ..self
                    },
                    None => if self.stage matches Stage::Restore {
                        finding: Finding::Refused,
                        ..
                    } {
                        self.finish(self.result)
                    } else {
                        self.finish(ExecutionResultView::CommandFailure(diagnostic))
                    },
                },
                _ => self.finish(passed_on(response)),
            },
        }
    }

    /// A bound on the number of exchanges that the operation can still make.
    pub open spec fn remaining(self) -> nat {
        match self.stage {
            Stage::Finished => 0,
            Stage::ReadScreen | Stage::ReadText | Stage::Restore { .. } => 1,
            Stage::Write { .. } => 2,
            Stage::MoveToTarget { .. } => 3,
            Stage::SeekNext { remaining } => remaining as nat + 1,
            Stage::SeekFirst => 257,
            Stage::CountPosition { count, .. } => (2 * (MAX_FIELD_ADVANCES - count) + 2) as nat,
            Stage::CountAdvance { count, .. } => (2 * (MAX_FIELD_ADVANCES - count) + 3) as nat,
            Stage::CountAnchor { .. } => 2 * MAX_FIELD_ADVANCES as nat + 4,
            Stage::CountFirst { .. } => 2 * MAX_FIELD_ADVANCES as nat + 5,
            Stage::BoundsEnd { .. } => 2,
            Stage::BoundsFieldEnd { .. } => 3,
            Stage::BoundsStart { .. } => 4,
            Stage::BoundsRetreat { .. } => 5,
            Stage::BoundsAdvance { .. } => 6,
            Stage::SaveCursor => 2 * MAX_FIELD_ADVANCES as nat + 6,
        }
    }

    /// Whether the stage is one that the request goes through, and the
    /// result, once there is one, answers the request.
    pub open spec fn well_formed(self) -> bool {
        &&& self.finished() ==> !(self.result is Unset)
        &&& !self.finished() ==> if self.stage matches Stage::Restore {
            finding: Finding::Refused,
            ..
        } {
            self.result is CommandFailure
        } else {
            self.result is Unset
        }
        &&& self.result matches ExecutionResultView::Success(output) ==> answers(
            self.request,
            output,
        )
        &&& match self.stage {
            Stage::ReadScreen => self.request is GetScreenText,
            Stage::ReadText => self.request is GetTextAtLocation,
            Stage::SaveCursor => self.request is SetTextAtLocation || self.request
                is GetFieldsCount || self.request is GetFieldVector,
            Stage::MoveToTarget { .. } | Stage::Write { .. } => self.request
                is SetTextAtLocation,
            Stage::Restore { saved, finding } => match finding {
                Finding::Written => self.request is SetTextAtLocation,
                Finding::Count(_) => self.request is GetFieldsCount,
                Finding::Bounds(bounds) => self.request is GetFieldVector && (bounds
                    matches Some(b) ==> b.row == saved.row && b.column <= saved.column
                    <= b.column + b.length - 1 && b.column + b.length <= 256),
                Finding::Refused => self.request is SetTextAtLocation || self.request
                    is GetFieldsCount || self.request is GetFieldVector,
            },
            Stage::SeekFirst => self.request is MoveToFieldIndex,
            Stage::SeekNext { remaining } => self.request is MoveToFieldIndex && remaining >= 1,
            Stage::CountFirst { .. } | Stage::CountAnchor { .. } => self.request is GetFieldsCount,
            Stage::CountAdvance { count, .. } | Stage::CountPosition { count, .. } => self.request
                is GetFieldsCount && count >= 1,
            Stage::BoundsAdvance { .. }
            | Stage::BoundsRetreat { .. }
            | Stage::BoundsStart { .. }
            | Stage::BoundsFieldEnd { .. }
            | Stage::BoundsEnd { .. } => self.request is GetFieldVector,
            Stage::Finished => true,
        }
    }
}

/// One exchange as a provider made it: the command that it handed to the
/// session and what the session answered.
pub struct Exchanged {
    pub command: CommandView,
    pub response: ExecutionResultView<CommandOutputView>,
}

/// The answers of `exchanges`, in order.
pub open spec fn responses_of(exchanges: Seq<Exchanged>) -> Seq<
    ExecutionResultView<CommandOutputView>,
> {
    Seq::new(exchanges.len(), |i: int| exchanges[i].response)
}

impl ProviderOperationView {
    /// The operation after the exchanges it waited for ended with
    /// `responses`, one after the other.
    pub open spec fn after(
        self,
        responses: Seq<ExecutionResultView<CommandOutputView>>,
    ) -> ProviderOperationView
        decreases responses.len(),
    {
        if responses.len() == 0 {
            self
        } else {
            self.after(responses.drop_last()).accept(responses.last())
        }
    }
}

/// Whether `exchanges` are those of an operation that carried out `request`
/// from its start to its end: each command is the one that the operation
/// asked for after the answers before it, and after the last answer the
/// operation is finished.
pub open spec fn carries_out(request: ProviderRequestView, exchanges: Seq<Exchanged>) -> bool {
    let start = ProviderOperationView::start(request);
    let responses = responses_of(exchanges);
    &&& forall|i: int|
        0 <= i < exchanges.len() ==> start.after(responses.take(i)).next_command() == Some(
            (#[trigger] exchanges[i]).command,
        )
    &&& start.after(responses).finished()
}

/// What an operation that carried out `request` came to, given the answers
/// of `exchanges`.
pub open spec fn outcome_of(
    request: ProviderRequestView,
    exchanges: Seq<Exchanged>,
) -> ExecutionResultView<ProviderOutputView> {
    ProviderOperationView::start(request).after(responses_of(exchanges)).result
}

/// An operation starts in a stage of its request.
pub proof fn lemma_start_well_formed(request: ProviderRequestView)
    ensures
        ProviderOperationView::start(request).well_formed(),
        !ProviderOperationView::start(request).finished(),
{
}

/// Each exchange brings an operation nearer to its end: the request stays,
/// the stage stays one of the request, and the bound on the exchanges that
/// are left goes down. So no sequence of answers keeps an operation going
/// for ever.
pub proof fn lemma_accept_progress(
    operation: ProviderOperationView,
    response: ExecutionResultView<CommandOutputView>,
)
    requires
        operation.well_formed(),
    ensures
        operation.accept(response).well_formed(),
        operation.accept(response).request == operation.request,
        !operation.finished() ==> operation.next_command() is Some,
        !operation.finished() ==> operation.accept(response).remaining() < operation.remaining(),
        operation.finished() ==> operation.accept(response) == operation,
{
    reveal(ProviderOperationView::accept);
}

/// Whether the request is one whose operation saves the cursor first and
/// puts it back at the end.
pub open spec fn saves_cursor(request: ProviderRequestView) -> bool {
    request is SetTextAtLocation || request is GetFieldsCount || request is GetFieldVector
}

/// Whether the operation has `saved` as the place to put the cursor back to.
pub open spec fn keeps(operation: ProviderOperationView, saved: Position) -> bool {
    operation.stage.saved() == Some(saved) || (operation.stage matches Stage::Restore {
        saved: place,
        ..
    } && place == saved)
}

/// The first exchange of an operation that saves the cursor: it asks where
/// the cursor is, and an answer that says so is kept as the place to go
/// back to.
proof fn lemma_cursor_is_saved(request: ProviderRequestView, saved: Position)
    requires
        saves_cursor(request),
    ensures
        ({
            let start = ProviderOperationView::start(request);
            let reached = start.accept(
                ExecutionResultView::Success(CommandOutputView::Cursor(saved.row, saved.column)),
            );
            &&& start.next_command() == Some(CommandView::ReadCursorPosition)
            &&& !reached.finished()
            &&& keeps(reached, saved)
        }),
{
    reveal(ProviderOperationView::accept);
}

/// One exchange of an operation that keeps a saved place: it keeps the
/// place or finishes, and where it finishes with a success or with a
/// refusal, the command of that exchange moved the cursor to the place.
proof fn lemma_saved_place_step(
    operation: ProviderOperationView,
    response: ExecutionResultView<CommandOutputView>,
    saved: Position,
)
    requires
        operation.well_formed(),
        !operation.finished(),
        keeps(operation, saved),
    ensures
        ({
            let reached = operation.accept(response);
            &&& reached.finished() || keeps(reached, saved)
            &&& reached.finished() && (reached.result is Success || reached.result
                is CommandFailure) ==> operation.next_command() == Some(
                CommandView::MoveCursor { row: saved.row, column: saved.column },
            )
        }),
{
    reveal(ProviderOperationView::accept);
}

/// Once the cursor is saved, an operation keeps the saved place for as long
/// as it is not finished.
proof fn lemma_saved_place_is_kept(
    start: ProviderOperationView,
    responses: Seq<ExecutionResultView<CommandOutputView>>,
    upto: int,
    saved: Position,
)
    requires
        start.well_formed(),
        1 <= upto <= responses.len(),
        !start.accept(responses[0]).finished(),
        keeps(start.accept(responses[0]), saved),
        forall|j: int| 0 <= j < upto ==> !(#[trigger] start.after(responses.take(j))).finished(),
    ensures
        start.after(responses.take(upto)).well_formed(),
        start.after(responses.take(upto)).finished() || keeps(
            start.after(responses.take(upto)),
            saved,
        ),
    decreases upto,
{
    let taken = responses.take(upto);
    assert(taken.drop_last() == responses.take(upto - 1));
    assert(taken.last() == responses[upto - 1]);
    if upto == 1 {
        assert(start.after(responses.take(0)) == start);
        lemma_accept_progress(start, responses[0]);
    } else {
        lemma_saved_place_is_kept(start, responses, upto - 1, saved);
        let earlier = start.after(responses.take(upto - 1));
        assert(!earlier.finished());
        lemma_accept_progress(earlier, responses[upto - 1]);
        lemma_saved_place_step(earlier, responses[upto - 1], saved);
    }
}

/// An operation that saved the cursor puts it back: unless the transport
/// failed or a contract was broken, the last command that it hands to the
/// session moves the cursor to the place that its first exchange found.
pub proof fn lemma_cursor_goes_back(
    request: ProviderRequestView,
    exchanges: Seq<Exchanged>,
    saved: Position,
)
    requires
        saves_cursor(request),
        carries_out(request, exchanges),
        exchanges.len() >= 1,
        exchanges[0].response == ExecutionResultView::Success(
            CommandOutputView::Cursor(saved.row, saved.column),
        ),
        outcome_of(request, exchanges) is Success || outcome_of(request, exchanges)
            is CommandFailure,
    ensures
        exchanges.len() >= 2,
        exchanges[0].command == CommandView::ReadCursorPosition,
        exchanges.last().command == (CommandView::MoveCursor {
            row: saved.row,
            column: saved.column,
        }),
{
    let start = ProviderOperationView::start(request);
    let responses = responses_of(exchanges);
    let count = exchanges.len() as int;
    lemma_start_well_formed(request);
    lemma_cursor_is_saved(request, saved);
    assert(responses.take(count) == responses);
    assert(responses.take(0).len() == 0);
    assert(start.after(responses.take(0)) == start);
    assert(start.after(responses.take(0)).next_command() == Some(exchanges[0].command));
    assert(responses.take(1).drop_last() == responses.take(0));
    assert(responses.take(1).last() == responses[0]);
    assert(start.after(responses.take(1)) == start.accept(responses[0]));
    assert forall|j: int| 0 <= j < count implies !(#[trigger] start.after(
        responses.take(j),
    )).finished() by {
        assert(start.after(responses.take(j)).next_command() == Some(exchanges[j].command));
    }
    if count >= 2 {
        lemma_saved_place_is_kept(start, responses, count - 1, saved);
        let before_last = start.after(responses.take(count - 1));
        assert(responses.drop_last() == responses.take(count - 1));
        assert(start.after(responses) == before_last.accept(responses.last()));
        assert(before_last.next_command() == Some(exchanges[count - 1].command));
        assert(!before_last.finished());
        lemma_saved_place_step(before_last, responses.last(), saved);
    }
}

/// A bound that is found around a cursor lies in the cursor's row and holds
/// the cursor's column: the column is neither before the first cell of the
/// bound nor after its last one.
pub proof fn lemma_bounds_hold_cursor(cursor: Position, start: Position, end: Position)
    ensures
        start.row != cursor.row ==> bounds_around(cursor, start, end) is None,
        bounds_around(cursor, start, end) matches Some(bounds) ==> bounds.row == cursor.row
            && bounds.row == start.row && bounds.column == start.column && bounds.column
            <= cursor.column <= bounds.column + bounds.length - 1 && bounds.length == end.column
            - start.column + 1,
{
}

/// One provider operation in progress.
///
/// Whoever owns the session asks for [`ProviderOperation::next_command`],
/// performs the exchange, hands its result to [`ProviderOperation::accept`],
/// and goes on until there is no next command.
pub struct ProviderOperation {
    request: ProviderRequest,
    stage: Stage,
    result: ExecutionResult<ProviderOutput>,
}

impl View for ProviderOperation {
    type V = ProviderOperationView;

    closed spec fn view(&self) -> ProviderOperationView {
        ProviderOperationView { request: self.request@, stage: self.stage, result: self.result@ }
    }
}

/// A line without its last character.
fn strip_marker(line: &String) -> (out: String)
    ensures
        out@ == without_marker(line@),
{
    let chars = to_chars(line.as_str());
    if chars.len() > 0 {
        assert(chars@.subrange(0, chars.len() - 1) == chars@.drop_last());
        from_chars(&chars, 0, chars.len() - 1)
    } else {
        assert(chars@.subrange(0, 0) == chars@);
        from_chars(&chars, 0, 0)
    }
}

/// The lines of a region, each without its continuation marker.
pub fn strip_markers(lines: &Vec<String>) -> (out: Vec<String>)
    ensures
        out.deep_view() == without_markers(lines.deep_view()),
{
    let mut out: Vec<String> = Vec::new();
    let mut i: usize = 0;
    while i < lines.len()
        invariant
            i <= lines.len(),
            out.len() == i,
            forall|j: int| 0 <= j < i ==> (#[trigger] out@[j])@ == without_marker(lines@[j]@),
        decreases lines.len() - i,
    {
        let stripped = strip_marker(&lines[i]);
        out.push(stripped);
        i += 1;
    }
    assert(out.deep_view() =~= without_markers(lines.deep_view()));
    out
}

/// The field that the positions found around the cursor describe.
pub fn field_bounds(cursor: Position, start: Position, end: Position) -> (bounds: Option<
    FieldBounds,
>)
    ensures
        bounds == bounds_around(cursor, start, end),
        bounds matches Some(b) ==> b.row == cursor.row && b.column <= cursor.column
            && cursor.column <= b.column + b.length - 1,
{
    if start.row == cursor.row && start.column <= cursor.column && cursor.column <= end.column {
        let length: u16 = (end.column - start.column) as u16 + 1;
        Some(FieldBounds { row: start.row, column: start.column, length })
    } else {
        None
    }
}

impl ProviderOperation {
    /// The operation that carries out `request`, before its first exchange.
    pub fn new(request: ProviderRequest) -> (operation: ProviderOperation)
        ensures
            operation@ == ProviderOperationView::start(request@),
    {
        let stage = match &request {
            ProviderRequest::GetScreenText => Stage::ReadScreen,
            ProviderRequest::GetTextAtLocation { .. } => Stage::ReadText,
            ProviderRequest::MoveToFieldIndex { .. } => Stage::SeekFirst,
            _ => Stage::SaveCursor,
        };
        ProviderOperation { request, stage, result: ExecutionResult::Unset }
    }

    /// What the operation was asked to do.
    pub fn request(&self) -> (request: &ProviderRequest)
        ensures
            request@ == self@.request,
    {
        &self.request
    }

    /// Whether nothing is left to do.
    pub fn is_finished(&self) -> (finished: bool)
        ensures
            finished == self@.finished(),
    {
        match self.stage {
            Stage::Finished => true,
            _ => false,
        }
    }

    /// The command to perform next, or nothing when the operation is
    /// finished. Every command it gives can be put on the wire.
    pub fn next_command(&self) -> (command: Option<Command>)
        ensures
            command is Some <==> self@.next_command() is Some,
            command matches Some(c) ==> Some(c@) == self@.next_command() && c@.encodable(),
    {
        match self.stage {
            Stage::ReadScreen => Some(
                Command::ReadTextRegion {
                    row: 0,
                    column: 0,
                    width: SCREEN_WIDTH,
                    height: SCREEN_HEIGHT,
                },
            ),
            Stage::ReadText => match &self.request {
                ProviderRequest::GetTextAtLocation { x, y, length } => Some(
                    Command::ReadText { row: *y, column: *x, length: *length },
                ),
                _ => None,
            },
            Stage::SaveCursor
            | Stage::CountAnchor { .. }
            | Stage::CountPosition { .. }
            | Stage::BoundsStart { .. }
            | Stage::BoundsEnd { .. } => Some(Command::ReadCursorPosition),
            Stage::MoveToTarget { .. } => match &self.request {
                ProviderRequest::SetTextAtLocation { x, y, .. } => Some(
                    Command::MoveCursor { row: *y, column: *x },
                ),
                _ => None,
            },
            Stage::Write { .. } => match &self.request {
                ProviderRequest::SetTextAtLocation { text, .. } => Some(
                    Command::WriteText { text: text.clone() },
                ),
                _ => None,
            },
            Stage::Restore { saved, .. } => Some(
                Command::MoveCursor { row: saved.row, column: saved.column },
            ),
            Stage::SeekFirst | Stage::CountFirst { .. } => Some(Command::MoveToFirstField),
            Stage::SeekNext { .. }
            | Stage::CountAdvance { .. }
            | Stage::BoundsAdvance { .. } => Some(Command::MoveToNextField),
            Stage::BoundsRetreat { .. } => Some(Command::MoveToPreviousField),
            Stage::BoundsFieldEnd { .. } => Some(Command::MoveToFieldEnd),
            Stage::Finished => None,
        }
    }

    /// Where the cursor was when the operation began, between saving it and
    /// putting it back.
    fn saved_cursor(&self) -> (saved: Option<Position>)
        ensures
            saved == self@.stage.saved(),
    {
        match self.stage {
            Stage::MoveToTarget { saved }
            | Stage::Write { saved }
            | Stage::CountFirst { saved }
            | Stage::CountAnchor { saved }
            | Stage::CountAdvance { saved, .. }
            | Stage::CountPosition { saved, .. }
            | Stage::BoundsAdvance { saved }
            | Stage::BoundsRetreat { saved }
            | Stage::BoundsStart { saved }
            | Stage::BoundsFieldEnd { saved, .. }
            | Stage::BoundsEnd { saved, .. } => Some(saved),
            _ => None,
        }
    }

    /// Ends the operation with `result`.
    fn finish(&mut self, result: ExecutionResult<ProviderOutput>)
        ensures
            final(self)@ == old(self)@.finish(result@),
    {
        self.stage = Stage::Finished;
        self.result = result;
    }

    /// Takes the value that the awaited exchange brought back, which is of
    /// the kind that its command brings back.
    fn proceed(&mut self, output: CommandOutput)
        ensures
            final(self)@ == old(self)@.proceed(output@),
    {
        match (self.stage, output) {
            (Stage::ReadScreen, CommandOutput::Lines(lines)) => {
                let stripped = strip_markers(&lines);
                self.finish(ExecutionResult::Success(ProviderOutput::Lines(stripped)));
            },
            (Stage::ReadText, CommandOutput::Text(text)) => {
                self.finish(ExecutionResult::Success(ProviderOutput::Text(text)));
            },
            (Stage::SaveCursor, CommandOutput::Cursor(row, column)) => {
                let saved = Position { row, column };
                self.stage = match &self.request {
                    ProviderRequest::SetTextAtLocation { .. } => Stage::MoveToTarget { saved },
                    ProviderRequest::GetFieldsCount => Stage::CountFirst { saved },
                    _ => Stage::BoundsAdvance { saved },
                };
            },
            (Stage::MoveToTarget { saved }, _) => {
                self.stage = Stage::Write { saved };
            },
            (Stage::Write { saved }, _) => {
                self.stage = Stage::Restore { saved, finding: Finding::Written };
            },
            (Stage::Restore { finding, .. }, _) => {
                match finding {
                    Finding::Written => {
                        self.finish(ExecutionResult::Success(ProviderOutput::Done));
                    },
                    Finding::Count(count) => {
                        self.finish(ExecutionResult::Success(ProviderOutput::Count(count)));
                    },
                    Finding::Bounds(bounds) => {
                        self.finish(ExecutionResult::Success(ProviderOutput::Bounds(bounds)));
                    },
                    Finding::Refused => {
                        self.stage = Stage::Finished;
                    },
                }
            },
            (Stage::SeekFirst, _) => {
                let moves: u8 = match &self.request {
                    ProviderRequest::MoveToFieldIndex { index } => *index,
                    _ => 0,
                };
                if moves > 0 {
                    self.stage = Stage::SeekNext { remaining: moves };
                } else {
                    self.finish(ExecutionResult::Success(ProviderOutput::Done));
                }
            },
            (Stage::SeekNext { remaining }, _) => {
                if remaining > 1 {
                    self.stage = Stage::SeekNext { remaining: remaining - 1 };
                } else {
                    self.finish(ExecutionResult::Success(ProviderOutput::Done));
                }
            },
            (Stage::CountFirst { saved }, _) => {
                self.stage = Stage::CountAnchor { saved };
            },
            (Stage::CountAnchor { saved }, CommandOutput::Cursor(row, column)) => {
                self.stage = Stage::CountAdvance { saved, anchor: Position { row, column }, count: 1 };
            },
            (Stage::CountAdvance { saved, anchor, count }, _) => {
                self.stage = Stage::CountPosition { saved, anchor, count };
            },
            (Stage::CountPosition { saved, anchor, count }, CommandOutput::Cursor(row, column)) => {
                if row == anchor.row && column == anchor.column {
                    self.stage = Stage::Restore { saved, finding: Finding::Count(count) };
                } else if count < MAX_FIELD_ADVANCES {
                    self.stage = Stage::CountAdvance { saved, anchor, count: count + 1 };
                } else {
                    self.stage = Stage::Restore { saved, finding: Finding::Count(0) };
                }
            },
            (Stage::BoundsAdvance { saved }, _) => {
                self.stage = Stage::BoundsRetreat { saved };
            },
            (Stage::BoundsRetreat { saved }, _) => {
                self.stage = Stage::BoundsStart { saved };
            },
            (Stage::BoundsStart { saved }, CommandOutput::Cursor(row, column)) => {
                if row != saved.row {
                    self.stage = Stage::Restore { saved, finding: Finding::Bounds(None) };
                } else {
                    self.stage = Stage::BoundsFieldEnd { saved, start: Position { row, column } };
                }
            },
            (Stage::BoundsFieldEnd { saved, start }, _) => {
                self.stage = Stage::BoundsEnd { saved, start };
            },
            (Stage::BoundsEnd { saved, start }, CommandOutput::Cursor(row, column)) => {
                let bounds = field_bounds(saved, start, Position { row, column });
                self.stage = Stage::Restore { saved, finding: Finding::Bounds(bounds) };
            },
            _ => {
                self.finish(
                    ExecutionResult::ContractViolation(ContractViolation::UnexpectedOutput),
                );
            },
        }
    }

    /// Takes the result of the exchange that the operation was waiting for.
    pub fn accept(&mut self, response: ExecutionResult<CommandOutput>)
        ensures
            final(self)@ == old(self)@.accept(response@),
    {
        proof {
            reveal(ProviderOperationView::accept);
        }
        let kind = match self.next_command() {
            Some(command) => command.output_kind(),
            None => {
                return ;
            },
        };
        match response {
            ExecutionResult::Success(output) => {
                if output.kind() == kind {
                    self.proceed(output);
                } else {
                    self.finish(
                        ExecutionResult::ContractViolation(ContractViolation::UnexpectedOutput),
                    );
                }
            },
            ExecutionResult::IoError(description) => {
                self.finish(ExecutionResult::IoError(description));
            },
            ExecutionResult::CommandFailure(diagnostic) => {
                match self.saved_cursor() {
                    Some(saved) => {
                        self.stage = Stage::Restore { saved, finding: Finding::Refused };
                        self.result = ExecutionResult::CommandFailure(diagnostic);
                    },
                    None => {
                        match self.stage {
                            Stage::Restore { finding: Finding::Refused, .. } => {
                                self.stage = Stage::Finished;
                            },
                            _ => {
                                self.finish(ExecutionResult::CommandFailure(diagnostic));
                            },
                        }
                    },
                }
            },
            ExecutionResult::ContractViolation(violation) => {
                self.finish(ExecutionResult::ContractViolation(violation));
            },
            ExecutionResult::Unset => {
                self.finish(ExecutionResult::ContractViolation(ContractViolation::UnsetResult));
            },
        }
    }

    /// What the operation came to, or `Unset` if it is not finished.
    pub fn into_result(self) -> (result: ExecutionResult<ProviderOutput>)
        ensures
            result@ == self@.result,
    {
        self.result
    }
}

} // verus!
