//! The screen operations of a session: reading the screen or a field,
//! writing a field, counting the fields and finding the field under the
//! cursor.
//!
//! A [`MainframeProvider`] carries each operation out on a session that
//! executes one command at a time. It hands the session the commands that
//! the operation asks for, in their order, and reports what the operation
//! makes of the answers.

use crate::client_interface::CommandExecutor;
use crate::command::CommandOutputView;
use crate::execution_result::{
    diagnostic_view,
    ContractViolation,
    ExecutionResult,
    ExecutionResultView,
};
use crate::provider_operation::{
    answers,
    carries_out,
    lemma_accept_progress,
    lemma_start_well_formed,
    outcome_of,
    passed_on,
    responses_of,
    Exchanged,
    FieldBounds,
    ProviderOperation,
    ProviderOperationView,
    ProviderOutput,
    ProviderOutputView,
    ProviderRequest,
    ProviderRequestView,
};
use vstd::prelude::*;

verus! {

/// The part of a provider that only reads the screen. Reading may still
/// move the cursor on its way, and puts it back.
pub trait ImmutableMainframeProvider {
    /// The text of the whole screen, one line for each row.
    fn get_screen_text(&mut self) -> ExecutionResult<Vec<String>>;

    /// The text of `length` cells from column `x` of row `y` on.
    fn get_text_at_location(&mut self, x: u8, y: u8, length: u8) -> ExecutionResult<String>;

    /// The number of fields on the screen.
    fn get_fields_count(&mut self) -> ExecutionResult<u8>;

    /// The bound of the field that the cursor is in, if it lies in one row.
    fn get_field_vector(&mut self) -> ExecutionResult<Option<FieldBounds>>;
}

/// A provider that also writes to the screen and moves the cursor.
pub trait MutableMainframeProvider: ImmutableMainframeProvider {
    /// Writes `text` from column `x` of row `y` on and leaves the cursor
    /// where it was.
    fn set_text_at_location(&mut self, x: u8, y: u8, text: &str) -> ExecutionResult<()>;

    /// Moves the cursor to the first field and from there `index` fields on.
    fn move_to_field_index(&mut self, index: u8) -> ExecutionResult<()>;
}

/// The failure of `result`, for a caller that is owed another kind of value.
fn pass_on<A: View, B: View>(result: ExecutionResult<A>) -> (out: ExecutionResult<B>)
    requires
        !(result is Success),
    ensures
        out@ == passed_on::<A::V, B::V>(result@),
        !(out is Success),
        !(out is Unset),
{
    match result {
        ExecutionResult::IoError(description) => ExecutionResult::IoError(description),
        ExecutionResult::CommandFailure(diagnostic) => ExecutionResult::CommandFailure(diagnostic),
        ExecutionResult::ContractViolation(violation) => ExecutionResult::ContractViolation(
            violation,
        ),
        _ => ExecutionResult::ContractViolation(ContractViolation::UnsetResult),
    }
}

/// The screen operations, carried out over a session that executes one
/// command at a time.
pub struct MainframeProvider<E: CommandExecutor> {
    client_interface: E,
    exchanged: Ghost<Seq<Exchanged>>,
}

impl<E: CommandExecutor> MainframeProvider<E> {
    /// The session that the provider works on.
    pub closed spec fn session(&self) -> E {
        self.client_interface
    }

    /// Every exchange that the provider has made on its session, in order.
    pub closed spec fn exchanges(&self) -> Seq<Exchanged> {
        self.exchanged@
    }

    /// The exchanges that the provider has made since it was `before`.
    pub open spec fn exchanges_since(&self, before: &Self) -> Seq<Exchanged> {
        self.exchanges().skip(before.exchanges().len() as int)
    }

    /// A provider that works on `client_interface`.
    pub fn new(client_interface: E) -> (provider: MainframeProvider<E>)
        ensures
            provider.session() == client_interface,
            provider.exchanges() == Seq::<Exchanged>::empty(),
    {
        MainframeProvider { client_interface, exchanged: Ghost(Seq::empty()) }
    }

    /// The session that the provider works on.
    pub fn client_interface(&self) -> (session: &E)
        ensures
            *session == self.session(),
    {
        &self.client_interface
    }

    /// Gives the session back.
    pub fn into_client_interface(self) -> (session: E)
        ensures
            session == self.session(),
    {
        self.client_interface
    }

    /// Carries out `request`: performs the exchanges that its operation asks
    /// for, one after the other, until the operation is finished.
    ///
    /// The session is handed exactly the commands that the operation asks
    /// for, and the result is what the operation makes of the session's
    /// answers. However the session answers, the operation ends after a
    /// bounded number of exchanges, with a result that is set and, where it
    /// is a success, of the kind that the request asks for.
    pub fn perform(&mut self, request: ProviderRequest) -> (result: ExecutionResult<
        ProviderOutput,
    >)
        ensures
            old(self).exchanges().is_prefix_of(final(self).exchanges()),
            carries_out(request@, final(self).exchanges_since(old(self))),
            result@ == outcome_of(request@, final(self).exchanges_since(old(self))),
            !(result is Unset),
            result matches ExecutionResult::Success(output) ==> answers(request@, output@),
    {
        let mut operation = ProviderOperation::new(request);
        let ghost start = operation@;
        let ghost mut made: Seq<Exchanged> = Seq::empty();
        proof {
            lemma_start_well_formed(request@);
            assert(self.exchanges() + made == self.exchanges());
            assert(responses_of(made) == Seq::<ExecutionResultView<CommandOutputView>>::empty());
        }
        loop
            invariant
                start == ProviderOperationView::start(request@),
                operation@.well_formed(),
                operation@.request == request@,
                self.exchanges() == old(self).exchanges() + made,
                operation@ == start.after(responses_of(made)),
                forall|i: int|
                    0 <= i < made.len() ==> start.after(responses_of(made).take(i)).next_command()
                        == Some((#[trigger] made[i]).command),
            ensures
                operation@.well_formed(),
                operation@.request == request@,
                operation@.finished(),
                self.exchanges() == old(self).exchanges() + made,
                operation@ == start.after(responses_of(made)),
                carries_out(request@, made),
            decreases operation@.remaining(),
        {
            match operation.next_command() {
                Some(command) => {
                    let ghost asked = command@;
                    let response = self.client_interface.execute(command);
                    proof {
                        lemma_accept_progress(operation@, response@);
                        let exchange = Exchanged { command: asked, response: response@ };
                        let longer = made.push(exchange);
                        assert(responses_of(longer).drop_last() == responses_of(made));
                        assert(responses_of(longer).last() == response@);
                        assert forall|i: int| 0 <= i < longer.len() implies start.after(
                            responses_of(longer).take(i),
                        ).next_command() == Some((#[trigger] longer[i]).command) by {
                            if i < made.len() {
                                assert(responses_of(longer).take(i) == responses_of(made).take(i));
                                assert(longer[i] == made[i]);
                            } else {
                                assert(responses_of(longer).take(i) == responses_of(made));
                            }
                        }
                        assert(old(self).exchanges() + longer == (old(self).exchanges()
                            + made).push(exchange));
                        made = longer;
                        self.exchanged@ = self.exchanged@.push(exchange);
                    }
                    operation.accept(response);
                },
                None => {
                    proof {
                        lemma_accept_progress(operation@, ExecutionResultView::Unset);
                    }
                    break ;
                },
            }
        }
        proof {
            assert((old(self).exchanges() + made).skip(old(self).exchanges().len() as int)
                == made);
        }
        operation.into_result()
    }
}

/// The result of reading the screen, from what the operation came to.
pub open spec fn lines_result(
    outcome: ExecutionResultView<ProviderOutputView>,
) -> ExecutionResultView<Seq<Seq<char>>> {
    match outcome {
        ExecutionResultView::Success(ProviderOutputView::Lines(lines)) => {
            ExecutionResultView::Success(lines)
        },
        ExecutionResultView::Success(_) => ExecutionResultView::ContractViolation(
            ContractViolation::UnexpectedOutput,
        ),
        _ => passed_on(outcome),
    }
}

/// The result of reading text, from what the operation came to.
pub open spec fn text_result(
    outcome: ExecutionResultView<ProviderOutputView>,
) -> ExecutionResultView<Seq<char>> {
    match outcome {
        ExecutionResultView::Success(ProviderOutputView::Text(text)) => {
            ExecutionResultView::Success(text)
        },
        ExecutionResultView::Success(_) => ExecutionResultView::ContractViolation(
            ContractViolation::UnexpectedOutput,
        ),
        _ => passed_on(outcome),
    }
}

/// The result of counting the fields, from what the operation came to.
pub open spec fn count_result(
    outcome: ExecutionResultView<ProviderOutputView>,
) -> ExecutionResultView<u8> {
    match outcome {
        ExecutionResultView::Success(ProviderOutputView::Count(count)) => {
            ExecutionResultView::Success(count)
        },
        ExecutionResultView::Success(_) => ExecutionResultView::ContractViolation(
            ContractViolation::UnexpectedOutput,
        ),
        _ => passed_on(outcome),
    }
}

/// The result of finding the field around the cursor, from what the
/// operation came to.
pub open spec fn bounds_result(
    outcome: ExecutionResultView<ProviderOutputView>,
) -> ExecutionResultView<Option<FieldBounds>> {
    match outcome {
        ExecutionResultView::Success(ProviderOutputView::Bounds(bounds)) => {
            ExecutionResultView::Success(bounds)
        },
        ExecutionResultView::Success(_) => ExecutionResultView::ContractViolation(
            ContractViolation::UnexpectedOutput,
        ),
        _ => passed_on(outcome),
    }
}

/// The result of an operation that has nothing to report, from what the
/// operation came to.
pub open spec fn done_result(
    outcome: ExecutionResultView<ProviderOutputView>,
) -> ExecutionResultView<()> {
    match outcome {
        ExecutionResultView::Success(_) => ExecutionResultView::Success(()),
        _ => passed_on(outcome),
    }
}

/// The mathematical value of the result of reading the screen.
pub open spec fn lines_view(result: ExecutionResult<Vec<String>>) -> ExecutionResultView<
    Seq<Seq<char>>,
> {
    match result {
        ExecutionResult::Unset => ExecutionResultView::Unset,
        ExecutionResult::Success(lines) => ExecutionResultView::Success(lines.deep_view()),
        ExecutionResult::IoError(description) => ExecutionResultView::IoError(description@),
        ExecutionResult::CommandFailure(diagnostic) => ExecutionResultView::CommandFailure(
            diagnostic_view(diagnostic),
        ),
        ExecutionResult::ContractViolation(violation) => ExecutionResultView::ContractViolation(
            violation,
        ),
    }
}

impl<E: CommandExecutor> ImmutableMainframeProvider for MainframeProvider<E> {
    /// Reads the screen with one region read and takes the continuation
    /// marker off each line.
    fn get_screen_text(&mut self) -> (result: ExecutionResult<Vec<String>>)
        ensures
            old(self).exchanges().is_prefix_of(final(self).exchanges()),
            carries_out(ProviderRequestView::GetScreenText, final(self).exchanges_since(old(self))),
            lines_view(result) == lines_result(
                outcome_of(
                    ProviderRequestView::GetScreenText,
                    final(self).exchanges_since(old(self)),
                ),
            ),
            !(result is Unset),
    {
        match self.perform(ProviderRequest::GetScreenText) {
            ExecutionResult::Success(ProviderOutput::Lines(lines)) => ExecutionResult::Success(
                lines,
            ),
            ExecutionResult::Success(_) => ExecutionResult::ContractViolation(
                ContractViolation::UnexpectedOutput,
            ),
            failure => pass_on(failure),
        }
    }

    /// Reads the cells with one read.
    fn get_text_at_location(&mut self, x: u8, y: u8, length: u8) -> (result: ExecutionResult<
        String,
    >)
        ensures
            old(self).exchanges().is_prefix_of(final(self).exchanges()),
            carries_out(
                ProviderRequestView::GetTextAtLocation { x, y, length },
                final(self).exchanges_since(old(self)),
            ),
            result@ == text_result(
                outcome_of(
                    ProviderRequestView::GetTextAtLocation { x, y, length },
                    final(self).exchanges_since(old(self)),
                ),
            ),
            !(result is Unset),
    {
        match self.perform(ProviderRequest::GetTextAtLocation { x, y, length }) {
            ExecutionResult::Success(ProviderOutput::Text(text)) => ExecutionResult::Success(text),
            ExecutionResult::Success(_) => ExecutionResult::ContractViolation(
                ContractViolation::UnexpectedOutput,
            ),
            failure => pass_on(failure),
        }
    }

    /// Counts the advances from the first field until the cursor is on the
    /// first field again, and puts the cursor back where it was.
    fn get_fields_count(&mut self) -> (result: ExecutionResult<u8>)
        ensures
            old(self).exchanges().is_prefix_of(final(self).exchanges()),
            carries_out(
                ProviderRequestView::GetFieldsCount,
                final(self).exchanges_since(old(self)),
            ),
            result@ == count_result(
                outcome_of(
                    ProviderRequestView::GetFieldsCount,
                    final(self).exchanges_since(old(self)),
                ),
            ),
            !(result is Unset),
    {
        match self.perform(ProviderRequest::GetFieldsCount) {
            ExecutionResult::Success(ProviderOutput::Count(count)) => ExecutionResult::Success(
                count,
            ),
            ExecutionResult::Success(_) => ExecutionResult::ContractViolation(
                ContractViolation::UnexpectedOutput,
            ),
            failure => pass_on(failure),
        }
    }

    /// Finds where the field around the cursor starts and ends, and puts
    /// the cursor back where it was.
    fn get_field_vector(&mut self) -> (result: ExecutionResult<Option<FieldBounds>>)
        ensures
            old(self).exchanges().is_prefix_of(final(self).exchanges()),
            carries_out(
                ProviderRequestView::GetFieldVector,
                final(self).exchanges_since(old(self)),
            ),
            result@ == bounds_result(
                outcome_of(
                    ProviderRequestView::GetFieldVector,
                    final(self).exchanges_since(old(self)),
                ),
            ),
            !(result is Unset),
            result matches ExecutionResult::Success(Some(bounds)) ==> 1 <= bounds.length
                && bounds.column + bounds.length <= 256,
    {
        match self.perform(ProviderRequest::GetFieldVector) {
            ExecutionResult::Success(ProviderOutput::Bounds(bounds)) => ExecutionResult::Success(
                bounds,
            ),
            ExecutionResult::Success(_) => ExecutionResult::ContractViolation(
                ContractViolation::UnexpectedOutput,
            ),
            failure => pass_on(failure),
        }
    }
}

impl<E: CommandExecutor> MutableMainframeProvider for MainframeProvider<E> {
    /// Moves the cursor to the place, types the text, and puts the cursor
    /// back where it was.
    fn set_text_at_location(&mut self, x: u8, y: u8, text: &str) -> (result: ExecutionResult<()>)
        ensures
            old(self).exchanges().is_prefix_of(final(self).exchanges()),
            carries_out(
                ProviderRequestView::SetTextAtLocation { x, y, text: text@ },
                final(self).exchanges_since(old(self)),
            ),
            result@ == done_result(
                outcome_of(
                    ProviderRequestView::SetTextAtLocation { x, y, text: text@ },
                    final(self).exchanges_since(old(self)),
                ),
            ),
            !(result is Unset),
    {
        match self.perform(ProviderRequest::SetTextAtLocation { x, y, text: text.to_owned() }) {
            ExecutionResult::Success(_) => ExecutionResult::Success(()),
            failure => pass_on(failure),
        }
    }

    /// Moves to the first field and advances `index` times.
    fn move_to_field_index(&mut self, index: u8) -> (result: ExecutionResult<()>)
        ensures
            old(self).exchanges().is_prefix_of(final(self).exchanges()),
            carries_out(
                ProviderRequestView::MoveToFieldIndex { index },
                final(self).exchanges_since(old(self)),
            ),
            result@ == done_result(
                outcome_of(
                    ProviderRequestView::MoveToFieldIndex { index },
                    final(self).exchanges_since(old(self)),
                ),
            ),
            !(result is Unset),
    {
        match self.perform(ProviderRequest::MoveToFieldIndex { index }) {
            ExecutionResult::Success(_) => ExecutionResult::Success(()),
            failure => pass_on(failure),
        }
    }
}

} // verus!
