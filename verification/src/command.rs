//! The scriptable commands: what each one sends and what kind of value it
//! brings back.

use crate::text::{decimal, push_decimal, push_text};
use vstd::prelude::*;

verus! {

/// One scripted operation of the terminal emulator.
///
/// Rows and columns count from zero.
#[derive(Clone, Debug, PartialEq, Eq)]
pub enum Command {
    /// Reads `length` characters starting at a cell.
    ReadText { row: u8, column: u8, length: u8 },
    /// Reads a rectangle of `width` columns and `height` rows, one line for
    /// each row.
    ReadTextRegion { row: u8, column: u8, width: u8, height: u8 },
    MoveCursor { row: u8, column: u8 },
    /// Types `text` at the cursor.
    WriteText { text: String },
    MoveToNextField,
    MoveToPreviousField,
    MoveToFirstField,
    SendEnter,
    ClearField,
    MoveToFieldEnd,
    WaitForInputField,
    WaitForUnlock,
    ReadCursorPosition,
}

/// The mathematical value of a [`Command`].
pub enum CommandView {
    ReadText { row: u8, column: u8, length: u8 },
    ReadTextRegion { row: u8, column: u8, width: u8, height: u8 },
    MoveCursor { row: u8, column: u8 },
    WriteText { text: Seq<char> },
    MoveToNextField,
    MoveToPreviousField,
    MoveToFirstField,
    SendEnter,
    ClearField,
    MoveToFieldEnd,
    WaitForInputField,
    WaitForUnlock,
    ReadCursorPosition,
}

impl View for Command {
    type V = CommandView;

    open spec fn view(&self) -> CommandView {
        match *self {
            Command::ReadText { row, column, length } => CommandView::ReadText {
                row,
                column,
                length,
            },
            Command::ReadTextRegion { row, column, width, height } => CommandView::ReadTextRegion {
                row,
                column,
                width,
                height,
            },
            Command::MoveCursor { row, column } => CommandView::MoveCursor { row, column },
            Command::WriteText { text } => CommandView::WriteText { text: text@ },
            Command::MoveToNextField => CommandView::MoveToNextField,
            Command::MoveToPreviousField => CommandView::MoveToPreviousField,
            Command::MoveToFirstField => CommandView::MoveToFirstField,
            Command::SendEnter => CommandView::SendEnter,
            Command::ClearField => CommandView::ClearField,
            Command::MoveToFieldEnd => CommandView::MoveToFieldEnd,
            Command::WaitForInputField => CommandView::WaitForInputField,
            Command::WaitForUnlock => CommandView::WaitForUnlock,
            Command::ReadCursorPosition => CommandView::ReadCursorPosition,
        }
    }
}

/// The kind of value that a command brings back, which is also how many data
/// lines it takes: any number that it ignores, exactly one, or a growing
/// sequence.
#[derive(Clone, Copy, Debug, PartialEq, Eq, Structural)]
pub enum OutputKind {
    /// Nothing. Data lines are not expected and are ignored.
    Unit,
    /// A flag that says the wait is over. Data lines are ignored.
    Flag,
    /// One data line, taken as it is.
    Text,
    /// One data line that holds a row and a column.
    Cursor,
    /// One data line or more, kept in the order of arrival.
    Lines,
}

impl OutputKind {
    /// Whether the kind takes exactly one data line.
    pub open spec fn single_valued(self) -> bool {
        self == OutputKind::Text || self == OutputKind::Cursor
    }
}

/// The value that a command brought back.
#[derive(Clone, Debug, PartialEq, Eq)]
pub enum CommandOutput {
    Unit,
    Flag(bool),
    Text(String),
    Cursor(u8, u8),
    Lines(Vec<String>),
}

/// The mathematical value of a [`CommandOutput`].
pub enum CommandOutputView {
    Unit,
    Flag(bool),
    Text(Seq<char>),
    Cursor(u8, u8),
    Lines(Seq<Seq<char>>),
}

impl View for CommandOutput {
    type V = CommandOutputView;

    open spec fn view(&self) -> CommandOutputView {
        match *self {
            CommandOutput::Unit => CommandOutputView::Unit,
            CommandOutput::Flag(flag) => CommandOutputView::Flag(flag),
            CommandOutput::Text(text) => CommandOutputView::Text(text@),
            CommandOutput::Cursor(row, column) => CommandOutputView::Cursor(row, column),
            CommandOutput::Lines(lines) => CommandOutputView::Lines(lines.deep_view()),
        }
    }
}

impl CommandOutputView {
    /// The kind of this value.
    pub open spec fn kind(self) -> OutputKind {
        match self {
            CommandOutputView::Unit => OutputKind::Unit,
            CommandOutputView::Flag(_) => OutputKind::Flag,
            CommandOutputView::Text(_) => OutputKind::Text,
            CommandOutputView::Cursor(_, _) => OutputKind::Cursor,
            CommandOutputView::Lines(_) => OutputKind::Lines,
        }
    }
}

impl CommandView {
    /// The kind of value that the command brings back.
    pub open spec fn output_kind(self) -> OutputKind {
        match self {
            CommandView::ReadText { .. } => OutputKind::Text,
            CommandView::ReadTextRegion { .. } => OutputKind::Lines,
            CommandView::WaitForInputField | CommandView::WaitForUnlock => OutputKind::Flag,
            CommandView::ReadCursorPosition => OutputKind::Cursor,
            _ => OutputKind::Unit,
        }
    }

    /// Whether the command can be put on the wire: a region has at least one
    /// column and one row.
    pub open spec fn encodable(self) -> bool {
        self matches CommandView::ReadTextRegion { width, height, .. } ==> width >= 1 && height
            >= 1
    }

    /// The request line of the command, without the line feed that ends it.
    ///
    /// A region goes out by its extents: its width less one, then its height
    /// less one.
    pub open spec fn request_line(self) -> Seq<char> {
        match self {
            CommandView::ReadText { row, column, length } => "Ascii("@ + decimal(row as nat)
                + ","@ + decimal(column as nat) + ","@ + decimal(length as nat) + ")"@,
            CommandView::ReadTextRegion { row, column, width, height } => "Ascii("@ + decimal(
                row as nat,
            ) + ","@ + decimal(column as nat) + ","@ + decimal((width - 1) as nat) + ","@
                + decimal((height - 1) as nat) + ")"@,
            CommandView::MoveCursor { row, column } => "MoveCursor("@ + decimal(row as nat) + ","@
                + decimal(column as nat) + ")"@,
            CommandView::WriteText { text } => "String(\""@ + text + "\")"@,
            CommandView::MoveToNextField => "Tab"@,
            CommandView::MoveToPreviousField => "BackTab"@,
            CommandView::MoveToFirstField => "Home"@,
            CommandView::SendEnter => "Enter"@,
            CommandView::ClearField => "DeleteField"@,
            CommandView::MoveToFieldEnd => "FieldEnd"@,
            CommandView::WaitForInputField => "Wait(InputField)"@,
            CommandView::WaitForUnlock => "Wait(Unlock)"@,
            CommandView::ReadCursorPosition => "Query(Cursor)"@,
        }
    }
}

impl CommandOutput {
    /// The kind of this value.
    pub fn kind(&self) -> (kind: OutputKind)
        ensures
            kind == self@.kind(),
    {
        match self {
            CommandOutput::Unit => OutputKind::Unit,
            CommandOutput::Flag(_) => OutputKind::Flag,
            CommandOutput::Text(_) => OutputKind::Text,
            CommandOutput::Cursor(_, _) => OutputKind::Cursor,
            CommandOutput::Lines(_) => OutputKind::Lines,
        }
    }
}

impl Command {
    /// The kind of value that the command brings back.
    pub fn output_kind(&self) -> (kind: OutputKind)
        ensures
            kind == self@.output_kind(),
    {
        match self {
            Command::ReadText { .. } => OutputKind::Text,
            Command::ReadTextRegion { .. } => OutputKind::Lines,
            Command::WaitForInputField | Command::WaitForUnlock => OutputKind::Flag,
            Command::ReadCursorPosition => OutputKind::Cursor,
            _ => OutputKind::Unit,
        }
    }

    /// Whether the command can be put on the wire.
    pub fn is_encodable(&self) -> (yes: bool)
        ensures
            yes == self@.encodable(),
    {
        match self {
            Command::ReadTextRegion { width, height, .. } => *width >= 1 && *height >= 1,
            _ => true,
        }
    }

    /// The request line to send for this command, without the line feed that
    /// ends it.
    pub fn get_client_message(&self) -> (line: String)
        requires
            self@.encodable(),
        ensures
            line@ == self@.request_line(),
    {
        let mut line = String::new();
        match self {
            Command::ReadText { row, column, length } => {
                push_text(&mut line, "Ascii(");
                push_decimal(&mut line, *row as u16);
                push_text(&mut line, ",");
                push_decimal(&mut line, *column as u16);
                push_text(&mut line, ",");
                push_decimal(&mut line, *length as u16);
                push_text(&mut line, ")");
            },
            Command::ReadTextRegion { row, column, width, height } => {
                push_text(&mut line, "Ascii(");
                push_decimal(&mut line, *row as u16);
                push_text(&mut line, ",");
                push_decimal(&mut line, *column as u16);
                push_text(&mut line, ",");
                push_decimal(&mut line, (*width - 1) as u16);
                push_text(&mut line, ",");
                push_decimal(&mut line, (*height - 1) as u16);
                push_text(&mut line, ")");
            },
            Command::MoveCursor { row, column } => {
                push_text(&mut line, "MoveCursor(");
                push_decimal(&mut line, *row as u16);
                push_text(&mut line, ",");
                push_decimal(&mut line, *column as u16);
                push_text(&mut line, ")");
            },
            Command::WriteText { text } => {
                push_text(&mut line, "String(\"");
                push_text(&mut line, text.as_str());
                push_text(&mut line, "\")");
            },
            Command::MoveToNextField => {
                push_text(&mut line, "Tab");
            },
            Command::MoveToPreviousField => {
                push_text(&mut line, "BackTab");
            },
            Command::MoveToFirstField => {
                push_text(&mut line, "Home");
            },
            Command::SendEnter => {
                push_text(&mut line, "Enter");
            },
            Command::ClearField => {
                push_text(&mut line, "DeleteField");
            },
            Command::MoveToFieldEnd => {
                push_text(&mut line, "FieldEnd");
            },
            Command::WaitForInputField => {
                push_text(&mut line, "Wait(InputField)");
            },
            Command::WaitForUnlock => {
                push_text(&mut line, "Wait(Unlock)");
            },
            Command::ReadCursorPosition => {
                push_text(&mut line, "Query(Cursor)");
            },
        }
        assert(line@ =~= self@.request_line());
        line
    }
}

} // verus!
