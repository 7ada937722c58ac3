use mainframe_automation::command::{Command, CommandOutput, OutputKind};
use mainframe_automation::exchange::{decode, is_success_conclusion, Exchange};
use mainframe_automation::execution_result::{ContractViolation, ExecutionResult};

fn lines(texts: &[&str]) -> Vec<String> {
    texts.iter().map(|text| String::from(*text)).collect()
}

fn exchange_of(command: Command, response: &[&str]) -> ExecutionResult<CommandOutput> {
    let mut exchange = Exchange::new(command);
    exchange.accept_lines(&lines(response));
    exchange.into_result()
}

#[test]
fn request_lines_of_all_commands() {
    assert_eq!(Command::ReadText { row: 0, column: 0, length: 3 }.get_client_message(), "Ascii(0,0,3)");
    assert_eq!(
        Command::ReadText { row: 23, column: 79, length: 255 }.get_client_message(),
        "Ascii(23,79,255)"
    );
    assert_eq!(Command::MoveCursor { row: 5, column: 10 }.get_client_message(), "MoveCursor(5,10)");
    assert_eq!(
        Command::WriteText { text: String::from("hello") }.get_client_message(),
        "String(\"hello\")"
    );
    assert_eq!(Command::WriteText { text: String::new() }.get_client_message(), "String(\"\")");
    assert_eq!(Command::MoveToNextField.get_client_message(), "Tab");
    assert_eq!(Command::MoveToPreviousField.get_client_message(), "BackTab");
    assert_eq!(Command::MoveToFirstField.get_client_message(), "Home");
    assert_eq!(Command::SendEnter.get_client_message(), "Enter");
    assert_eq!(Command::ClearField.get_client_message(), "DeleteField");
    assert_eq!(Command::MoveToFieldEnd.get_client_message(), "FieldEnd");
    assert_eq!(Command::WaitForInputField.get_client_message(), "Wait(InputField)");
    assert_eq!(Command::WaitForUnlock.get_client_message(), "Wait(Unlock)");
    assert_eq!(Command::ReadCursorPosition.get_client_message(), "Query(Cursor)");
}

#[test]
fn region_request_sends_width_and_height_less_one() {
    let command = Command::ReadTextRegion { row: 0, column: 0, width: 80, height: 24 };
    assert!(command.is_encodable());
    assert_eq!(command.get_client_message(), "Ascii(0,0,79,23)");
    let smallest = Command::ReadTextRegion { row: 7, column: 100, width: 1, height: 1 };
    assert_eq!(smallest.get_client_message(), "Ascii(7,100,0,0)");
    let largest = Command::ReadTextRegion { row: 0, column: 0, width: 255, height: 255 };
    assert_eq!(largest.get_client_message(), "Ascii(0,0,254,254)");
}

#[test]
fn region_without_cells_is_not_encodable() {
    assert!(!Command::ReadTextRegion { row: 0, column: 0, width: 0, height: 24 }.is_encodable());
    assert!(!Command::ReadTextRegion { row: 0, column: 0, width: 80, height: 0 }.is_encodable());
    assert!(Command::ReadText { row: 0, column: 0, length: 0 }.is_encodable());
    assert!(Command::MoveToNextField.is_encodable());
}

#[test]
fn request_ends_with_a_line_feed() {
    let exchange = Exchange::new(Command::MoveCursor { row: 5, column: 10 });
    assert_eq!(exchange.request(), "MoveCursor(5,10)\n");
    assert_eq!(exchange.command(), &Command::MoveCursor { row: 5, column: 10 });
}

#[test]
fn output_kinds_of_commands() {
    assert_eq!(Command::ReadText { row: 0, column: 0, length: 1 }.output_kind(), OutputKind::Text);
    assert_eq!(
        Command::ReadTextRegion { row: 0, column: 0, width: 1, height: 1 }.output_kind(),
        OutputKind::Lines
    );
    assert_eq!(Command::ReadCursorPosition.output_kind(), OutputKind::Cursor);
    assert_eq!(Command::WaitForInputField.output_kind(), OutputKind::Flag);
    assert_eq!(Command::WaitForUnlock.output_kind(), OutputKind::Flag);
    assert_eq!(Command::MoveCursor { row: 0, column: 0 }.output_kind(), OutputKind::Unit);
    assert_eq!(Command::SendEnter.output_kind(), OutputKind::Unit);
    assert_eq!(CommandOutput::Cursor(1, 2).kind(), OutputKind::Cursor);
    assert_eq!(CommandOutput::Lines(Vec::new()).kind(), OutputKind::Lines);
}

#[test]
fn read_text_exchange_succeeds() {
    let mut exchange = Exchange::new(Command::ReadText { row: 0, column: 0, length: 3 });
    exchange.accept_line("data: abc\n");
    assert!(!exchange.is_finished());
    exchange.accept_line("U F U C(localhost) I 4 24 80 0 0 0x0 -\n");
    assert!(!exchange.is_finished());
    exchange.accept_line("ok\n");
    assert!(exchange.is_finished());
    assert_eq!(
        exchange.into_result(),
        ExecutionResult::Success(CommandOutput::Text(String::from("abc")))
    );
}

#[test]
fn error_conclusion_reports_first_data_line() {
    let commands = vec![
        Command::MoveCursor { row: 1, column: 1 },
        Command::ReadText { row: 0, column: 0, length: 3 },
        Command::ReadTextRegion { row: 0, column: 0, width: 2, height: 2 },
        Command::ReadCursorPosition,
        Command::WaitForUnlock,
        Command::WriteText { text: String::from("x") },
    ];
    for command in commands {
        assert_eq!(
            exchange_of(command, &["data: bad field\n", "U F U\n", "error\n"]),
            ExecutionResult::CommandFailure(Some(String::from("bad field")))
        );
    }
}

#[test]
fn error_conclusion_without_data_has_no_diagnostic() {
    assert_eq!(
        exchange_of(Command::MoveToNextField, &["L U U\n", "error\n"]),
        ExecutionResult::CommandFailure(None)
    );
    assert_eq!(
        exchange_of(Command::ReadCursorPosition, &["L U U\n", "\n"]),
        ExecutionResult::CommandFailure(None)
    );
}

#[test]
fn second_data_line_breaks_single_value_contract() {
    let text = Command::ReadText { row: 0, column: 0, length: 3 };
    let cursor = Command::ReadCursorPosition;
    for conclusion in ["ok", "error"] {
        assert_eq!(
            decode(&text, lines(&["abc", "def"]), "", conclusion),
            ExecutionResult::ContractViolation(ContractViolation::UnexpectedData)
        );
        assert_eq!(
            decode(&cursor, lines(&["1 2", "3 4"]), "", conclusion),
            ExecutionResult::ContractViolation(ContractViolation::UnexpectedData)
        );
    }
    assert_eq!(
        exchange_of(text, &["data: abc\n", "data: def\n", "U F U\n", "ok\n"]),
        ExecutionResult::ContractViolation(ContractViolation::UnexpectedData)
    );
}

#[test]
fn missing_data_breaks_the_contract() {
    assert_eq!(
        exchange_of(Command::ReadText { row: 0, column: 0, length: 3 }, &["U F U\n", "ok\n"]),
        ExecutionResult::ContractViolation(ContractViolation::MissingData)
    );
    assert_eq!(
        exchange_of(Command::ReadCursorPosition, &["U F U\n", "ok\n"]),
        ExecutionResult::ContractViolation(ContractViolation::MissingData)
    );
    assert_eq!(
        exchange_of(
            Command::ReadTextRegion { row: 0, column: 0, width: 2, height: 2 },
            &["U F U\n", "ok\n"]
        ),
        ExecutionResult::ContractViolation(ContractViolation::MissingData)
    );
}

#[test]
fn cursor_position_is_decoded() {
    assert_eq!(
        exchange_of(Command::ReadCursorPosition, &["data: 5 10\n", "U F U\n", "ok\n"]),
        ExecutionResult::Success(CommandOutput::Cursor(5, 10))
    );
    assert_eq!(
        exchange_of(Command::ReadCursorPosition, &["data: 0 255\n", "U F U\n", "ok\n"]),
        ExecutionResult::Success(CommandOutput::Cursor(0, 255))
    );
}

#[test]
fn malformed_cursor_position_breaks_the_contract() {
    for data in ["data: 5\n", "data: 5 10 7\n", "data: 5  10\n", "data: 256 1\n", "data: a b\n", "data: \n", "data: 5 10 \n", "data: +5 1\n"] {
        assert_eq!(
            exchange_of(Command::ReadCursorPosition, &[data, "U F U\n", "ok\n"]),
            ExecutionResult::ContractViolation(ContractViolation::MalformedData),
            "{:?}",
            data
        );
    }
}

#[test]
fn region_lines_keep_their_order() {
    let response = ["data: first\n", "data: second\n", "data: third\n", "U F U\n", "ok\n"];
    assert_eq!(
        exchange_of(Command::ReadTextRegion { row: 0, column: 0, width: 6, height: 3 }, &response),
        ExecutionResult::Success(CommandOutput::Lines(lines(&["first", "second", "third"])))
    );
}

#[test]
fn region_of_twenty_four_rows_decodes_to_twenty_four_lines() {
    let mut response: Vec<String> = Vec::new();
    for row in 0..24 {
        response.push(format!("data: row {}\n", row));
    }
    response.push(String::from("U F U\n"));
    response.push(String::from("ok\n"));
    let mut exchange =
        Exchange::new(Command::ReadTextRegion { row: 0, column: 0, width: 80, height: 24 });
    exchange.accept_lines(&response);
    match exchange.into_result() {
        ExecutionResult::Success(CommandOutput::Lines(decoded)) => {
            assert_eq!(decoded.len(), 24);
            for row in 0..24 {
                assert_eq!(decoded[row], format!("row {}", row));
            }
        }
        other => panic!("{:?}", other),
    }
}

#[test]
fn unit_commands_ignore_data() {
    assert_eq!(
        exchange_of(Command::SendEnter, &["data: anything\n", "data: more\n", "U F U\n", "ok\n"]),
        ExecutionResult::Success(CommandOutput::Unit)
    );
    assert_eq!(
        exchange_of(Command::MoveCursor { row: 1, column: 2 }, &["U F U\n", "ok\n"]),
        ExecutionResult::Success(CommandOutput::Unit)
    );
}

#[test]
fn wait_commands_report_the_flag() {
    assert_eq!(
        exchange_of(Command::WaitForInputField, &["U F U\n", "ok\n"]),
        ExecutionResult::Success(CommandOutput::Flag(true))
    );
    assert_eq!(
        exchange_of(Command::WaitForUnlock, &["U F U\n", "ok\n"]),
        ExecutionResult::Success(CommandOutput::Flag(true))
    );
}

#[test]
fn data_after_the_status_line_is_still_data() {
    assert_eq!(
        exchange_of(
            Command::ReadText { row: 0, column: 0, length: 3 },
            &["U F U\n", "data: abc\n", "ok\n"]
        ),
        ExecutionResult::Success(CommandOutput::Text(String::from("abc")))
    );
    assert_eq!(
        exchange_of(Command::SendEnter, &["U F U\n", "data: late\n", "error\n"]),
        ExecutionResult::CommandFailure(Some(String::from("late")))
    );
}

#[test]
fn payload_loses_marker_and_line_feeds_only() {
    assert_eq!(
        exchange_of(
            Command::ReadText { row: 0, column: 0, length: 9 },
            &["data:  data: x \r\n", "U F U\n", "ok\n"]
        ),
        ExecutionResult::Success(CommandOutput::Text(String::from(" data: x \r")))
    );
    assert_eq!(
        exchange_of(Command::ReadText { row: 0, column: 0, length: 0 }, &["data: ", "s", "ok"]),
        ExecutionResult::Success(CommandOutput::Text(String::new()))
    );
}

#[test]
fn line_without_the_whole_marker_is_not_data() {
    assert_eq!(
        exchange_of(Command::ReadText { row: 0, column: 0, length: 3 }, &["data:abc\n", "ok\n"]),
        ExecutionResult::ContractViolation(ContractViolation::MissingData)
    );
    assert_eq!(
        exchange_of(Command::SendEnter, &[" data: abc\n", "Data: x\n"]),
        ExecutionResult::CommandFailure(None)
    );
}

#[test]
fn unfinished_exchange_is_unset() {
    let mut exchange = Exchange::new(Command::SendEnter);
    assert!(!exchange.is_finished());
    exchange.accept_line("data: abc\n");
    exchange.accept_line("U F U\n");
    assert!(!exchange.is_finished());
    assert_eq!(exchange.into_result(), ExecutionResult::Unset);
    assert_eq!(Exchange::new(Command::SendEnter).into_result(), ExecutionResult::Unset);
}

#[test]
fn finished_exchange_takes_no_more_lines() {
    let mut exchange = Exchange::new(Command::ReadText { row: 0, column: 0, length: 3 });
    exchange.accept_lines(&lines(&["data: abc\n", "U F U\n", "ok\n"]));
    exchange.accept_line("data: def\n");
    exchange.accept_line("error\n");
    exchange.fail(String::from("late failure"));
    assert_eq!(
        exchange.into_result(),
        ExecutionResult::Success(CommandOutput::Text(String::from("abc")))
    );
}

#[test]
fn transport_failure_ends_the_exchange() {
    let mut exchange = Exchange::new(Command::ReadText { row: 0, column: 0, length: 3 });
    exchange.accept_line("data: abc\n");
    exchange.fail(String::from("connection reset"));
    assert!(exchange.is_finished());
    exchange.accept_line("ok\n");
    assert_eq!(exchange.into_result(), ExecutionResult::IoError(String::from("connection reset")));
}

#[test]
fn success_token_is_compared_after_trimming() {
    assert!(is_success_conclusion("ok"));
    assert!(is_success_conclusion("ok\n"));
    assert!(is_success_conclusion("  ok \r\n"));
    assert!(is_success_conclusion("\t\u{a0}ok\u{3000}\u{2028}"));
    assert!(!is_success_conclusion("OK"));
    assert!(!is_success_conclusion("o k"));
    assert!(!is_success_conclusion("okay"));
    assert!(!is_success_conclusion("error"));
    assert!(!is_success_conclusion(""));
    assert!(!is_success_conclusion("\u{200b}ok"));
}

#[test]
fn status_line_is_not_inspected() {
    let command = Command::ReadText { row: 0, column: 0, length: 3 };
    assert_eq!(
        decode(&command, lines(&["abc"]), "error", "ok"),
        ExecutionResult::Success(CommandOutput::Text(String::from("abc")))
    );
    assert_eq!(
        decode(&command, lines(&["abc"]), "ok", "error"),
        ExecutionResult::CommandFailure(Some(String::from("abc")))
    );
}
