//! The framing of one exchange: which response lines are data, which is the
//! status line and which the conclusion, and what the command makes of them.
//!
//! An [`Exchange`] never reads or writes. Whoever owns the connection sends
//! the request line, hands over each response line as it arrives, and stops
//! when the exchange is finished.

use crate::command::{Command, CommandOutput, CommandOutputView, CommandView, OutputKind};
use crate::execution_result::{
    diagnostic_view,
    ContractViolation,
    ExecutionResult,
    ExecutionResultView,
};
use crate::text::{
    decimal,
    free_of,
    is_digit,
    lemma_byte_pair_round_trip,
    lemma_decimal_denotes,
    lemma_without_line_feeds,
    parse_byte_pair,
    parse_byte_pair_of,
    push_char,
    starts_with,
    strip_line_feeds,
    to_chars,
    trim,
    trimmed,
    without_line_feeds,
};
use vstd::prelude::*;

verus! {

/// The marker that a data line begins with.
pub open spec fn data_prefix() -> Seq<char> {
    seq!['d', 'a', 't', 'a', ':', ' ']
}

/// The token that a successful conclusion line holds.
pub open spec fn success_token() -> Seq<char> {
    seq!['o', 'k']
}

/// Whether a response line carries data.
pub open spec fn is_data_line(line: Seq<char>) -> bool {
    data_prefix().is_prefix_of(line)
}

/// What a data line carries: the line without its marker and without line
/// feeds.
pub open spec fn payload(line: Seq<char>) -> Seq<char> {
    without_line_feeds(line.skip(data_prefix().len() as int))
}

/// Whether a conclusion line reports success: its content, white space at the
/// two ends apart, is the success token.
pub open spec fn concludes_success(line: Seq<char>) -> bool {
    trimmed(line) == success_token()
}

/// The first element of `data`, if there is one.
pub open spec fn first_of(data: Seq<Seq<char>>) -> Option<Seq<char>> {
    if data.len() > 0 {
        Some(data[0])
    } else {
        None
    }
}

/// What a command makes of a completed response.
///
/// A single-valued command that was sent more than one data line has its
/// contract broken, whatever the conclusion says. Otherwise a conclusion that
/// is not the success token is a command failure, with the first data line as
/// its diagnostic. Otherwise the data is turned into the command's value, and
/// data that is missing or cannot be read breaks the contract.
pub open spec fn decode_response(
    command: CommandView,
    data: Seq<Seq<char>>,
    conclusion: Seq<char>,
) -> ExecutionResultView<CommandOutputView> {
    let kind = command.output_kind();
    if kind.single_valued() && data.len() > 1 {
        ExecutionResultView::ContractViolation(ContractViolation::UnexpectedData)
    } else if !concludes_success(conclusion) {
        ExecutionResultView::CommandFailure(first_of(data))
    } else {
        match kind {
            OutputKind::Unit => ExecutionResultView::Success(CommandOutputView::Unit),
            OutputKind::Flag => ExecutionResultView::Success(CommandOutputView::Flag(true)),
            _ => if data.len() == 0 {
                ExecutionResultView::ContractViolation(ContractViolation::MissingData)
            } else {
                match kind {
                    OutputKind::Text => ExecutionResultView::Success(
                        CommandOutputView::Text(data[0]),
                    ),
                    OutputKind::Cursor => match parse_byte_pair(data[0]) {
                        Some((row, column)) => ExecutionResultView::Success(
                            CommandOutputView::Cursor(row, column),
                        ),
                        None => ExecutionResultView::ContractViolation(
                            ContractViolation::MalformedData,
                        ),
                    },
                    _ => ExecutionResultView::Success(CommandOutputView::Lines(data)),
                }
            },
        }
    }
}

/// A single-valued command rejects a response with more than one data line
/// as a breach of its contract, whatever the lines hold and however the
/// response concludes.
pub proof fn lemma_single_valued_rejects_more_data(
    command: CommandView,
    data: Seq<Seq<char>>,
    conclusion: Seq<char>,
)
    requires
        command.output_kind().single_valued(),
        data.len() > 1,
    ensures
        decode_response(command, data, conclusion) == ExecutionResultView::<
            CommandOutputView,
        >::ContractViolation(ContractViolation::UnexpectedData),
{
}

/// A response that a command decodes is never left unset, and a value that
/// it decodes is of the kind that the command brings back. The lines of a
/// region come back as they arrived: as many, and in the same order.
pub proof fn lemma_decode_settles(
    command: CommandView,
    data: Seq<Seq<char>>,
    conclusion: Seq<char>,
)
    ensures
        !(decode_response(command, data, conclusion) is Unset),
        !(decode_response(command, data, conclusion) is IoError),
        decode_response(command, data, conclusion) matches ExecutionResultView::Success(output)
            ==> output.kind() == command.output_kind() && concludes_success(conclusion),
        decode_response(command, data, conclusion) matches ExecutionResultView::Success(
            CommandOutputView::Lines(lines),
        ) ==> lines == data,
        decode_response(command, data, conclusion) matches ExecutionResultView::CommandFailure(
            diagnostic,
        ) ==> diagnostic == first_of(data) && !concludes_success(conclusion),
{
}

/// The data line that carries `text`, as it is read from the connection:
/// the marker, the text and a line feed.
pub open spec fn data_line(text: Seq<char>) -> Seq<char> {
    (data_prefix() + text).push('\n')
}

/// A data line gives back the text that it carries, where the text has no
/// line feed of its own.
pub proof fn lemma_data_line_carries(text: Seq<char>)
    requires
        free_of(text, '\n'),
    ensures
        is_data_line(data_line(text)),
        payload(data_line(text)) == text,
{
    let line = data_line(text);
    assert(line.subrange(0, data_prefix().len() as int) == data_prefix());
    assert(line.skip(data_prefix().len() as int) == text.push('\n'));
    lemma_without_line_feeds(text);
}

/// The response to a command that brings text back: one data line with the
/// text, a status line and a conclusion that reports success give the text,
/// whatever the status line says.
pub proof fn lemma_text_is_read(
    command: CommandView,
    text: Seq<char>,
    status: Seq<char>,
    conclusion: Seq<char>,
)
    requires
        command.output_kind() == OutputKind::Text,
        free_of(text, '\n'),
        !is_data_line(status),
        !is_data_line(conclusion),
        concludes_success(conclusion),
    ensures
        ExchangeView::start(command).accept_line(data_line(text)).accept_line(status).accept_line(
            conclusion,
        ).outcome() == ExecutionResultView::Success(CommandOutputView::Text(text)),
{
    lemma_data_line_carries(text);
    let first = ExchangeView::start(command).accept_line(data_line(text));
    assert(first.data == seq![text]);
}

/// The response to the question where the cursor is: a data line with the
/// row and the column in decimal and a space between them gives that row
/// and that column.
pub proof fn lemma_cursor_is_read(row: u8, column: u8, status: Seq<char>, conclusion: Seq<char>)
    requires
        !is_data_line(status),
        !is_data_line(conclusion),
        concludes_success(conclusion),
    ensures
        ExchangeView::start(CommandView::ReadCursorPosition).accept_line(
            data_line(decimal(row as nat) + seq![' '] + decimal(column as nat)),
        ).accept_line(status).accept_line(conclusion).outcome() == ExecutionResultView::Success(
            CommandOutputView::Cursor(row, column),
        ),
{
    let text = decimal(row as nat) + seq![' '] + decimal(column as nat);
    lemma_byte_pair_round_trip(row, column);
    assert(free_of(text, '\n')) by {
        lemma_decimal_denotes(row as nat);
        lemma_decimal_denotes(column as nat);
        assert forall|i: int| 0 <= i < text.len() implies #[trigger] text[i] != '\n' by {
            let front = decimal(row as nat);
            let back = decimal(column as nat);
            if i < front.len() {
                assert(is_digit(front[i]));
            } else if i > front.len() {
                assert(text[i] == back[i - front.len() - 1]);
                assert(is_digit(back[i - front.len() - 1]));
            }
        }
    }
    lemma_data_line_carries(text);
    let first = ExchangeView::start(CommandView::ReadCursorPosition).accept_line(data_line(text));
    assert(first.data == seq![text]);
}

/// The response to any command that the remote side refuses: a data line,
/// a status line and a conclusion that does not report success give a
/// command failure with the text of the data line.
pub proof fn lemma_refusal_is_reported(
    command: CommandView,
    text: Seq<char>,
    status: Seq<char>,
    conclusion: Seq<char>,
)
    requires
        free_of(text, '\n'),
        !is_data_line(status),
        !is_data_line(conclusion),
        !concludes_success(conclusion),
    ensures
        ExchangeView::start(command).accept_line(data_line(text)).accept_line(status).accept_line(
            conclusion,
        ).outcome() == ExecutionResultView::<CommandOutputView>::CommandFailure(Some(text)),
{
    lemma_data_line_carries(text);
    let first = ExchangeView::start(command).accept_line(data_line(text));
    assert(first.data == seq![text]);
}

/// The mathematical value of an [`Exchange`].
pub struct ExchangeView {
    pub command: CommandView,
    /// The payloads of the data lines received so far, in order of arrival.
    pub data: Seq<Seq<char>>,
    pub status_received: bool,
    pub conclusion: Option<Seq<char>>,
    /// The description of the transport failure that ended the exchange.
    pub failure: Option<Seq<char>>,
}

impl ExchangeView {
    /// The exchange of `command` before any line has arrived.
    pub open spec fn start(command: CommandView) -> ExchangeView {
        ExchangeView {
            command,
            data: Seq::empty(),
            status_received: false,
            conclusion: None,
            failure: None,
        }
    }

    /// Whether the exchange is over: its conclusion line has arrived or the
    /// transport has failed.
    pub open spec fn finished(self) -> bool {
        self.conclusion is Some || self.failure is Some
    }

    /// The exchange after one more response line.
    ///
    /// A line with the data marker is data, at any time. The first line
    /// without it is the status line, the second one the conclusion. A
    /// finished exchange takes no more lines.
    pub open spec fn accept_line(self, line: Seq<char>) -> ExchangeView {
        if self.finished() {
            self
        } else if is_data_line(line) {
            ExchangeView { data: self.data.push(payload(line)), ..self }
        } else if !self.status_received {
            ExchangeView { status_received: true, ..self }
        } else {
            ExchangeView { conclusion: Some(line), ..self }
        }
    }

    /// The exchange after the transport failed.
    pub open spec fn fail(self, description: Seq<char>) -> ExchangeView {
        if self.finished() {
            self
        } else {
            ExchangeView { failure: Some(description), ..self }
        }
    }

    /// The exchange after the lines of `lines`, in order.
    pub open spec fn accept_lines(self, lines: Seq<Seq<char>>) -> ExchangeView
        decreases lines.len(),
    {
        if lines.len() == 0 {
            self
        } else {
            self.accept_lines(lines.drop_last()).accept_line(lines.last())
        }
    }

    /// How the exchange ended, or `Unset` while it is not finished.
    pub open spec fn outcome(self) -> ExecutionResultView<CommandOutputView> {
        if self.failure is Some {
            ExecutionResultView::IoError(self.failure->0)
        } else if self.conclusion is Some {
            decode_response(self.command, self.data, self.conclusion->0)
        } else {
            ExecutionResultView::Unset
        }
    }
}

/// One exchange in progress: the command that was sent and what has come back
/// so far.
pub struct Exchange {
    command: Command,
    data: Vec<String>,
    status_received: bool,
    conclusion: Option<String>,
    failure: Option<String>,
}

impl View for Exchange {
    type V = ExchangeView;

    closed spec fn view(&self) -> ExchangeView {
        ExchangeView {
            command: self.command@,
            data: self.data.deep_view(),
            status_received: self.status_received,
            conclusion: match self.conclusion {
                Some(line) => Some(line@),
                None => None,
            },
            failure: match self.failure {
                Some(description) => Some(description@),
                None => None,
            },
        }
    }
}

/// Whether `line` begins with the data marker.
fn has_data_prefix(chars: &Vec<char>) -> (yes: bool)
    ensures
        yes == is_data_line(chars@),
{
    let mut prefix: Vec<char> = Vec::new();
    prefix.push('d');
    prefix.push('a');
    prefix.push('t');
    prefix.push('a');
    prefix.push(':');
    prefix.push(' ');
    assert(prefix@ == data_prefix());
    starts_with(chars, &prefix)
}

/// Whether a conclusion line reports success.
pub fn is_success_conclusion(line: &str) -> (yes: bool)
    ensures
        yes == concludes_success(line@),
{
    let content = trim(line);
    let chars = to_chars(content.as_str());
    let yes = chars.len() == 2 && chars[0] == 'o' && chars[1] == 'k';
    assert(yes == (chars@ == success_token())) by {
        if yes {
            assert(chars@ =~= success_token());
        }
    }
    yes
}

/// A copy of the first of `data`, if there is one.
fn first_line(data: &Vec<String>) -> (first: Option<String>)
    ensures
        diagnostic_view(first) == first_of(data.deep_view()),
{
    if data.len() > 0 {
        Some(data[0].clone())
    } else {
        None
    }
}

/// What `command` makes of a completed response: the payloads of its data
/// lines in `data`, its status line, which is not inspected, and its
/// conclusion line.
pub fn decode(command: &Command, data: Vec<String>, status_line: &str, conclusion_line: &str) -> (result:
    ExecutionResult<CommandOutput>)
    ensures
        result@ == decode_response(command@, data.deep_view(), conclusion_line@),
        command@.output_kind().single_valued() && data.len() > 1 ==> result@
            == ExecutionResultView::<CommandOutputView>::ContractViolation(
            ContractViolation::UnexpectedData,
        ),
        !(result is Unset),
        result matches ExecutionResult::Success(output) ==> output@.kind()
            == command@.output_kind(),
{
    let kind = command.output_kind();
    let single = match kind {
        OutputKind::Text | OutputKind::Cursor => true,
        _ => false,
    };
    if single && data.len() > 1 {
        return ExecutionResult::ContractViolation(ContractViolation::UnexpectedData);
    }
    if !is_success_conclusion(conclusion_line) {
        return ExecutionResult::CommandFailure(first_line(&data));
    }
    match kind {
        OutputKind::Unit => ExecutionResult::Success(CommandOutput::Unit),
        OutputKind::Flag => ExecutionResult::Success(CommandOutput::Flag(true)),
        OutputKind::Text => {
            if data.len() == 0 {
                ExecutionResult::ContractViolation(ContractViolation::MissingData)
            } else {
                let mut data = data;
                let text = data.remove(0);
                ExecutionResult::Success(CommandOutput::Text(text))
            }
        },
        OutputKind::Cursor => {
            if data.len() == 0 {
                ExecutionResult::ContractViolation(ContractViolation::MissingData)
            } else {
                match parse_byte_pair_of(data[0].as_str()) {
                    Some((row, column)) => ExecutionResult::Success(
                        CommandOutput::Cursor(row, column),
                    ),
                    None => ExecutionResult::ContractViolation(ContractViolation::MalformedData),
                }
            }
        },
        OutputKind::Lines => {
            if data.len() == 0 {
                ExecutionResult::ContractViolation(ContractViolation::MissingData)
            } else {
                ExecutionResult::Success(CommandOutput::Lines(data))
            }
        },
    }
}

impl Exchange {
    /// The exchange of `command`, before any response line.
    pub fn new(command: Command) -> (exchange: Exchange)
        ensures
            exchange@ == ExchangeView::start(command@),
    {
        let exchange = Exchange {
            command,
            data: Vec::new(),
            status_received: false,
            conclusion: None,
            failure: None,
        };
        assert(exchange.data.deep_view() =~= Seq::<Seq<char>>::empty());
        exchange
    }

    /// What to send to start the exchange: the request line of the command
    /// and the line feed that ends it.
    pub fn request(&self) -> (text: String)
        requires
            self@.command.encodable(),
        ensures
            text@ == self@.command.request_line().push('\n'),
    {
        let mut text = self.command.get_client_message();
        push_char(&mut text, '\n');
        text
    }

    /// The command that the exchange is for.
    pub fn command(&self) -> (command: &Command)
        ensures
            command@ == self@.command,
    {
        &self.command
    }

    /// Whether the exchange is over, so that no more lines are to be read.
    pub fn is_finished(&self) -> (finished: bool)
        ensures
            finished == self@.finished(),
    {
        self.conclusion.is_some() || self.failure.is_some()
    }

    /// Takes the next response line, with or without the line feed that ends
    /// it.
    pub fn accept_line(&mut self, line: &str)
        ensures
            final(self)@ == old(self)@.accept_line(line@),
    {
        if self.is_finished() {
            return ;
        }
        let chars = to_chars(line);
        if has_data_prefix(&chars) {
            let content = strip_line_feeds(&chars, 6);
            let ghost before = self.data.deep_view();
            self.data.push(content);
            assert(self.data.deep_view() =~= before.push(payload(line@)));
        } else if !self.status_received {
            self.status_received = true;
        } else {
            self.conclusion = Some(line.to_owned());
        }
    }

    /// Takes the response lines of `lines`, in order.
    pub fn accept_lines(&mut self, lines: &Vec<String>)
        ensures
            final(self)@ == old(self)@.accept_lines(lines.deep_view()),
    {
        let mut i: usize = 0;
        while i < lines.len()
            invariant
                i <= lines.len(),
                self@ == old(self)@.accept_lines(lines.deep_view().take(i as int)),
            decreases lines.len() - i,
        {
            proof {
                let taken = lines.deep_view().take(i + 1);
                assert(taken.drop_last() == lines.deep_view().take(i as int));
                assert(taken.last() == lines@[i as int]@);
            }
            self.accept_line(lines[i].as_str());
            i += 1;
        }
        assert(lines.deep_view().take(lines.len() as int) == lines.deep_view());
    }

    /// Ends the exchange with a transport failure that `description`
    /// describes.
    pub fn fail(&mut self, description: String)
        ensures
            final(self)@ == old(self)@.fail(description@),
    {
        if self.is_finished() {
            return ;
        }
        self.failure = Some(description);
    }

    /// How the exchange ended, or `Unset` if it is not finished.
    pub fn into_result(self) -> (result: ExecutionResult<CommandOutput>)
        ensures
            result@ == self@.outcome(),
            result is Unset <==> !self@.finished(),
    {
        match self.failure {
            Some(description) => ExecutionResult::IoError(description),
            None => match self.conclusion {
                Some(conclusion) => decode(&self.command, self.data, "", conclusion.as_str()),
                None => ExecutionResult::Unset,
            },
        }
    }
}

} // verus!
