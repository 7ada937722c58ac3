use mainframe_automation::client_interface::CommandExecutor;
use mainframe_automation::command::{Command, CommandOutput};
use mainframe_automation::execution_result::{ContractViolation, ExecutionResult};
use mainframe_automation::mainframe_provider::{
    ImmutableMainframeProvider, MainframeProvider, MutableMainframeProvider,
};
use mainframe_automation::provider_operation::{
    field_bounds, strip_markers, FieldBounds, Position, ProviderOperation, ProviderOutput,
    ProviderRequest,
};

/// A session that records what it is sent and answers from a list.
struct Scripted {
    sent: Vec<Command>,
    answers: Vec<ExecutionResult<CommandOutput>>,
}

impl Scripted {
    fn new(mut answers: Vec<ExecutionResult<CommandOutput>>) -> Scripted {
        answers.reverse();
        Scripted { sent: Vec::new(), answers }
    }
}

impl CommandExecutor for Scripted {
    fn execute(&mut self, command: Command) -> ExecutionResult<CommandOutput> {
        self.sent.push(command);
        self.answers.pop().expect("the script should hold an answer for every command")
    }
}

/// A session on which the cursor never comes back to where it was.
struct Wandering {
    sent: usize,
    moves: u16,
}

impl CommandExecutor for Wandering {
    fn execute(&mut self, command: Command) -> ExecutionResult<CommandOutput> {
        self.sent += 1;
        match command {
            Command::ReadCursorPosition => {
                ExecutionResult::Success(CommandOutput::Cursor((self.moves / 200) as u8, (self.moves % 200) as u8))
            }
            Command::MoveToNextField => {
                self.moves += 1;
                ExecutionResult::Success(CommandOutput::Unit)
            }
            _ => ExecutionResult::Success(CommandOutput::Unit),
        }
    }
}

fn unit() -> ExecutionResult<CommandOutput> {
    ExecutionResult::Success(CommandOutput::Unit)
}

fn cursor(row: u8, column: u8) -> ExecutionResult<CommandOutput> {
    ExecutionResult::Success(CommandOutput::Cursor(row, column))
}

fn refused(text: &str) -> ExecutionResult<CommandOutput> {
    ExecutionResult::CommandFailure(Some(String::from(text)))
}

fn move_cursor(row: u8, column: u8) -> Command {
    Command::MoveCursor { row, column }
}

#[test]
fn write_saves_moves_types_and_restores() {
    let session = Scripted::new(vec![cursor(7, 3), unit(), unit(), unit()]);
    let mut provider = MainframeProvider::new(session);
    assert_eq!(provider.set_text_at_location(10, 5, "hello"), ExecutionResult::Success(()));
    assert_eq!(
        provider.client_interface().sent,
        vec![
            Command::ReadCursorPosition,
            move_cursor(5, 10),
            Command::WriteText { text: String::from("hello") },
            move_cursor(7, 3),
        ]
    );
}

#[test]
fn write_restores_any_cursor() {
    for row in [0u8, 1, 23, 42, 255] {
        for column in [0u8, 1, 79, 80, 255] {
            let session = Scripted::new(vec![cursor(row, column), unit(), unit(), unit()]);
            let mut provider = MainframeProvider::new(session);
            assert_eq!(provider.set_text_at_location(0, 0, "x"), ExecutionResult::Success(()));
            assert_eq!(provider.client_interface().sent.last(), Some(&move_cursor(row, column)));
        }
    }
}

#[test]
fn refused_write_still_restores_the_cursor() {
    let session = Scripted::new(vec![cursor(7, 3), unit(), refused("protected"), unit()]);
    let mut provider = MainframeProvider::new(session);
    assert_eq!(
        provider.set_text_at_location(10, 5, "hello"),
        ExecutionResult::CommandFailure(Some(String::from("protected")))
    );
    assert_eq!(provider.client_interface().sent.len(), 4);
    assert_eq!(provider.client_interface().sent[3], move_cursor(7, 3));
}

#[test]
fn refused_move_still_restores_the_cursor() {
    let session = Scripted::new(vec![cursor(7, 3), refused("off screen"), unit()]);
    let mut provider = MainframeProvider::new(session);
    assert_eq!(
        provider.set_text_at_location(10, 5, "hello"),
        ExecutionResult::CommandFailure(Some(String::from("off screen")))
    );
    assert_eq!(
        provider.client_interface().sent,
        vec![Command::ReadCursorPosition, move_cursor(5, 10), move_cursor(7, 3)]
    );
}

#[test]
fn first_refusal_stays_when_restoring_is_refused_too() {
    let session = Scripted::new(vec![cursor(7, 3), unit(), refused("first"), refused("second")]);
    let mut provider = MainframeProvider::new(session);
    assert_eq!(
        provider.set_text_at_location(10, 5, "hello"),
        ExecutionResult::CommandFailure(Some(String::from("first")))
    );
}

#[test]
fn refused_restore_is_reported() {
    let session = Scripted::new(vec![cursor(7, 3), unit(), unit(), refused("lost")]);
    let mut provider = MainframeProvider::new(session);
    assert_eq!(
        provider.set_text_at_location(10, 5, "hello"),
        ExecutionResult::CommandFailure(Some(String::from("lost")))
    );
}

#[test]
fn refusal_before_the_cursor_is_known_ends_the_operation() {
    let session = Scripted::new(vec![refused("busy")]);
    let mut provider = MainframeProvider::new(session);
    assert_eq!(
        provider.set_text_at_location(10, 5, "hello"),
        ExecutionResult::CommandFailure(Some(String::from("busy")))
    );
    assert_eq!(provider.client_interface().sent, vec![Command::ReadCursorPosition]);
}

#[test]
fn transport_failure_ends_the_operation_at_once() {
    let session = Scripted::new(vec![
        cursor(7, 3),
        unit(),
        ExecutionResult::IoError(String::from("connection reset")),
    ]);
    let mut provider = MainframeProvider::new(session);
    assert_eq!(
        provider.set_text_at_location(10, 5, "hello"),
        ExecutionResult::IoError(String::from("connection reset"))
    );
    assert_eq!(provider.client_interface().sent.len(), 3);
}

#[test]
fn contract_violations_end_the_operation_at_once() {
    let session = Scripted::new(vec![
        cursor(7, 3),
        ExecutionResult::ContractViolation(ContractViolation::MalformedData),
    ]);
    let mut provider = MainframeProvider::new(session);
    assert_eq!(
        provider.get_fields_count(),
        ExecutionResult::ContractViolation(ContractViolation::MalformedData)
    );
    assert_eq!(provider.client_interface().sent.len(), 2);
}

#[test]
fn answer_of_another_kind_breaks_the_contract() {
    let session = Scripted::new(vec![unit()]);
    let mut provider = MainframeProvider::new(session);
    assert_eq!(
        provider.get_field_vector(),
        ExecutionResult::ContractViolation(ContractViolation::UnexpectedOutput)
    );
    let session = Scripted::new(vec![ExecutionResult::Success(CommandOutput::Text(String::from("x")))]);
    let mut provider = MainframeProvider::new(session);
    assert_eq!(
        provider.get_screen_text(),
        ExecutionResult::ContractViolation(ContractViolation::UnexpectedOutput)
    );
}

#[test]
fn unset_answer_breaks_the_contract() {
    let session = Scripted::new(vec![ExecutionResult::Unset]);
    let mut provider = MainframeProvider::new(session);
    assert_eq!(
        provider.get_text_at_location(1, 2, 3),
        ExecutionResult::ContractViolation(ContractViolation::UnsetResult)
    );
}

#[test]
fn text_is_read_with_one_command() {
    let session = Scripted::new(vec![ExecutionResult::Success(CommandOutput::Text(String::from("abc")))]);
    let mut provider = MainframeProvider::new(session);
    assert_eq!(provider.get_text_at_location(10, 5, 3), ExecutionResult::Success(String::from("abc")));
    assert_eq!(
        provider.client_interface().sent,
        vec![Command::ReadText { row: 5, column: 10, length: 3 }]
    );
}

#[test]
fn screen_is_read_as_one_region_without_markers() {
    let lines = vec![String::from("first\\"), String::from("second\\"), String::new(), String::from("x")];
    let session = Scripted::new(vec![ExecutionResult::Success(CommandOutput::Lines(lines))]);
    let mut provider = MainframeProvider::new(session);
    assert_eq!(
        provider.get_screen_text(),
        ExecutionResult::Success(vec![
            String::from("first"),
            String::from("second"),
            String::new(),
            String::new()
        ])
    );
    assert_eq!(
        provider.client_interface().sent,
        vec![Command::ReadTextRegion { row: 0, column: 0, width: 80, height: 24 }]
    );
}

#[test]
fn markers_are_the_last_characters() {
    let lines = vec![String::from("abc"), String::from("é"), String::new(), String::from("ab\n")];
    assert_eq!(
        strip_markers(&lines),
        vec![String::from("ab"), String::new(), String::new(), String::from("ab")]
    );
}

#[test]
fn fields_are_counted_until_the_first_one_comes_again() {
    let session = Scripted::new(vec![
        cursor(9, 9),
        unit(),
        cursor(1, 1),
        unit(),
        cursor(2, 5),
        unit(),
        cursor(4, 0),
        unit(),
        cursor(1, 1),
        unit(),
    ]);
    let mut provider = MainframeProvider::new(session);
    assert_eq!(provider.get_fields_count(), ExecutionResult::Success(3));
    assert_eq!(
        provider.client_interface().sent,
        vec![
            Command::ReadCursorPosition,
            Command::MoveToFirstField,
            Command::ReadCursorPosition,
            Command::MoveToNextField,
            Command::ReadCursorPosition,
            Command::MoveToNextField,
            Command::ReadCursorPosition,
            Command::MoveToNextField,
            Command::ReadCursorPosition,
            move_cursor(9, 9),
        ]
    );
}

#[test]
fn single_field_counts_one() {
    let session = Scripted::new(vec![cursor(0, 0), unit(), cursor(3, 3), unit(), cursor(3, 3), unit()]);
    let mut provider = MainframeProvider::new(session);
    assert_eq!(provider.get_fields_count(), ExecutionResult::Success(1));
}

#[test]
fn count_gives_up_where_the_cursor_never_comes_back() {
    let mut provider = MainframeProvider::new(Wandering { sent: 0, moves: 0 });
    assert_eq!(provider.get_fields_count(), ExecutionResult::Success(0));
    assert_eq!(provider.client_interface().moves, 255);
    assert_eq!(provider.client_interface().sent, 3 + 2 * 255 + 1);
}

#[test]
fn count_of_exactly_the_most_advances() {
    let mut answers = vec![cursor(9, 9), unit(), cursor(0, 0)];
    for advance in 1..=255u16 {
        answers.push(unit());
        if advance < 255 {
            answers.push(cursor(1, (advance % 200) as u8));
        } else {
            answers.push(cursor(0, 0));
        }
    }
    answers.push(unit());
    let mut provider = MainframeProvider::new(Scripted::new(answers));
    assert_eq!(provider.get_fields_count(), ExecutionResult::Success(255));
}

#[test]
fn refused_advance_restores_the_cursor_and_fails_the_count() {
    let session = Scripted::new(vec![cursor(9, 9), unit(), cursor(1, 1), refused("locked"), unit()]);
    let mut provider = MainframeProvider::new(session);
    assert_eq!(
        provider.get_fields_count(),
        ExecutionResult::CommandFailure(Some(String::from("locked")))
    );
    assert_eq!(provider.client_interface().sent.last(), Some(&move_cursor(9, 9)));
}

#[test]
fn field_bounds_are_found_around_the_cursor() {
    let session = Scripted::new(vec![
        cursor(5, 12),
        unit(),
        unit(),
        cursor(5, 10),
        unit(),
        cursor(5, 19),
        unit(),
    ]);
    let mut provider = MainframeProvider::new(session);
    assert_eq!(
        provider.get_field_vector(),
        ExecutionResult::Success(Some(FieldBounds { row: 5, column: 10, length: 10 }))
    );
    assert_eq!(
        provider.client_interface().sent,
        vec![
            Command::ReadCursorPosition,
            Command::MoveToNextField,
            Command::MoveToPreviousField,
            Command::ReadCursorPosition,
            Command::MoveToFieldEnd,
            Command::ReadCursorPosition,
            move_cursor(5, 12),
        ]
    );
}

#[test]
fn no_bounds_where_the_field_starts_in_another_row() {
    let session = Scripted::new(vec![cursor(5, 12), unit(), unit(), cursor(4, 70), unit()]);
    let mut provider = MainframeProvider::new(session);
    assert_eq!(provider.get_field_vector(), ExecutionResult::Success(None));
    assert_eq!(
        provider.client_interface().sent,
        vec![
            Command::ReadCursorPosition,
            Command::MoveToNextField,
            Command::MoveToPreviousField,
            Command::ReadCursorPosition,
            move_cursor(5, 12),
        ]
    );
}

#[test]
fn row_is_compared_with_row_not_with_column() {
    let session = Scripted::new(vec![
        cursor(5, 12),
        unit(),
        unit(),
        cursor(5, 5),
        unit(),
        cursor(5, 20),
        unit(),
    ]);
    let mut provider = MainframeProvider::new(session);
    assert_eq!(
        provider.get_field_vector(),
        ExecutionResult::Success(Some(FieldBounds { row: 5, column: 5, length: 16 }))
    );
}

#[test]
fn no_bounds_where_the_cursor_is_outside_the_columns() {
    let session = Scripted::new(vec![
        cursor(5, 30),
        unit(),
        unit(),
        cursor(5, 10),
        unit(),
        cursor(5, 19),
        unit(),
    ]);
    let mut provider = MainframeProvider::new(session);
    assert_eq!(provider.get_field_vector(), ExecutionResult::Success(None));
    assert_eq!(provider.client_interface().sent.last(), Some(&move_cursor(5, 30)));
}

#[test]
fn bounds_formula() {
    let at = |row: u8, column: u8| Position { row, column };
    assert_eq!(
        field_bounds(at(5, 12), at(5, 10), at(5, 19)),
        Some(FieldBounds { row: 5, column: 10, length: 10 })
    );
    assert_eq!(
        field_bounds(at(5, 10), at(5, 10), at(5, 10)),
        Some(FieldBounds { row: 5, column: 10, length: 1 })
    );
    assert_eq!(
        field_bounds(at(0, 255), at(0, 0), at(0, 255)),
        Some(FieldBounds { row: 0, column: 0, length: 256 })
    );
    assert_eq!(field_bounds(at(5, 9), at(5, 10), at(5, 19)), None);
    assert_eq!(field_bounds(at(5, 20), at(5, 10), at(5, 19)), None);
    assert_eq!(field_bounds(at(5, 12), at(4, 10), at(5, 19)), None);
    assert_eq!(field_bounds(at(5, 12), at(5, 10), at(6, 3)), None);
    assert_eq!(
        field_bounds(at(5, 12), at(5, 10), at(6, 40)),
        Some(FieldBounds { row: 5, column: 10, length: 31 })
    );
}

#[test]
fn found_bounds_hold_the_cursor_column() {
    for cursor_column in [0u8, 3, 10, 200, 255] {
        for start in [0u8, 3, 10, 200, 255] {
            for end in [0u8, 3, 10, 200, 255] {
                let found = field_bounds(
                    Position { row: 1, column: cursor_column },
                    Position { row: 1, column: start },
                    Position { row: 1, column: end },
                );
                match found {
                    Some(bounds) => {
                        assert!(start <= cursor_column && cursor_column <= end);
                        assert_eq!(bounds.column, start);
                        assert!(bounds.column <= cursor_column);
                        assert!(cursor_column as u16 <= bounds.column as u16 + bounds.length - 1);
                        assert_eq!(bounds.length, (end - start) as u16 + 1);
                    }
                    None => assert!(!(start <= cursor_column && cursor_column <= end)),
                }
            }
        }
    }
}

#[test]
fn field_is_reached_by_index() {
    let session = Scripted::new(vec![unit(), unit(), unit(), unit()]);
    let mut provider = MainframeProvider::new(session);
    assert_eq!(provider.move_to_field_index(3), ExecutionResult::Success(()));
    assert_eq!(
        provider.client_interface().sent,
        vec![
            Command::MoveToFirstField,
            Command::MoveToNextField,
            Command::MoveToNextField,
            Command::MoveToNextField,
        ]
    );
}

#[test]
fn first_field_needs_no_advance() {
    let session = Scripted::new(vec![unit()]);
    let mut provider = MainframeProvider::new(session);
    assert_eq!(provider.move_to_field_index(0), ExecutionResult::Success(()));
    assert_eq!(provider.client_interface().sent, vec![Command::MoveToFirstField]);
}

#[test]
fn last_index_advances_that_often() {
    let mut provider = MainframeProvider::new(Wandering { sent: 0, moves: 0 });
    assert_eq!(provider.move_to_field_index(255), ExecutionResult::Success(()));
    assert_eq!(provider.client_interface().moves, 255);
    assert_eq!(provider.client_interface().sent, 256);
}

#[test]
fn refused_advance_ends_the_move_to_a_field() {
    let session = Scripted::new(vec![unit(), unit(), refused("no field")]);
    let mut provider = MainframeProvider::new(session);
    assert_eq!(
        provider.move_to_field_index(3),
        ExecutionResult::CommandFailure(Some(String::from("no field")))
    );
    assert_eq!(provider.client_interface().sent.len(), 3);
}

#[test]
fn operation_is_driven_step_by_step() {
    let mut operation = ProviderOperation::new(ProviderRequest::SetTextAtLocation {
        x: 1,
        y: 2,
        text: String::from("t"),
    });
    assert!(!operation.is_finished());
    assert_eq!(operation.next_command(), Some(Command::ReadCursorPosition));
    assert_eq!(operation.next_command(), Some(Command::ReadCursorPosition));
    operation.accept(cursor(8, 9));
    assert_eq!(operation.next_command(), Some(move_cursor(2, 1)));
    operation.accept(unit());
    assert_eq!(operation.next_command(), Some(Command::WriteText { text: String::from("t") }));
    operation.accept(unit());
    assert_eq!(operation.next_command(), Some(move_cursor(8, 9)));
    assert!(!operation.is_finished());
    operation.accept(unit());
    assert!(operation.is_finished());
    assert_eq!(operation.next_command(), None);
    operation.accept(refused("late"));
    assert_eq!(
        operation.request(),
        &ProviderRequest::SetTextAtLocation { x: 1, y: 2, text: String::from("t") }
    );
    assert_eq!(operation.into_result(), ExecutionResult::Success(ProviderOutput::Done));
}

#[test]
fn unfinished_operation_has_no_result() {
    let mut operation = ProviderOperation::new(ProviderRequest::GetFieldsCount);
    assert_eq!(ProviderOperation::new(ProviderRequest::GetFieldVector).into_result(), ExecutionResult::Unset);
    operation.accept(cursor(1, 1));
    operation.accept(unit());
    assert_eq!(operation.into_result(), ExecutionResult::Unset);
}

#[test]
fn every_command_of_an_operation_can_be_sent() {
    let requests = vec![
        ProviderRequest::GetScreenText,
        ProviderRequest::GetTextAtLocation { x: 0, y: 0, length: 0 },
        ProviderRequest::GetFieldsCount,
        ProviderRequest::GetFieldVector,
        ProviderRequest::SetTextAtLocation { x: 255, y: 255, text: String::new() },
        ProviderRequest::MoveToFieldIndex { index: 2 },
    ];
    for request in requests {
        let mut session = Wandering { sent: 0, moves: 0 };
        let mut operation = ProviderOperation::new(request);
        let mut steps = 0;
        while let Some(command) = operation.next_command() {
            assert!(command.is_encodable());
            let answer = match command {
                Command::ReadTextRegion { .. } => ExecutionResult::Success(CommandOutput::Lines(vec![String::new()])),
                Command::ReadText { .. } => ExecutionResult::Success(CommandOutput::Text(String::new())),
                other => session.execute(other),
            };
            operation.accept(answer);
            steps += 1;
            assert!(steps <= 516);
        }
        assert!(operation.is_finished());
        assert!(operation.into_result().is_ok());
    }
}

#[test]
fn provider_gives_its_session_back() {
    let provider = MainframeProvider::new(Scripted::new(vec![unit()]));
    let session = provider.into_client_interface();
    assert_eq!(session.answers.len(), 1);
}
