//! The outcome of one scripted exchange with the terminal emulator.

use vstd::prelude::*;

verus! {

/// The ways in which a completed exchange can break the contract of the
/// command that started it.
#[derive(Clone, Copy, Debug, PartialEq, Eq, Structural)]
pub enum ContractViolation {
    /// More data lines arrived than the command takes.
    UnexpectedData,
    /// The exchange concluded with success but without the data that the
    /// command is owed.
    MissingData,
    /// A data line does not hold what the command decodes.
    MalformedData,
    /// A step was handed the output of another kind of command.
    UnexpectedOutput,
    /// A step was handed a result that no completed exchange produces.
    UnsetResult,
}

/// How an exchange ended.
///
/// `Unset` stands for "no result yet"; a completed exchange never ends in it.
#[derive(Clone, Debug, PartialEq, Eq)]
pub enum ExecutionResult<T> {
    Unset,
    Success(T),
    /// The transport failed; the text describes the failure.
    IoError(String),
    /// The remote side concluded with something other than the success token;
    /// the text is the first data line it sent, if it sent one.
    CommandFailure(Option<String>),
    ContractViolation(ContractViolation),
}

/// The mathematical value of an [`ExecutionResult`].
pub enum ExecutionResultView<V> {
    Unset,
    Success(V),
    IoError(Seq<char>),
    CommandFailure(Option<Seq<char>>),
    ContractViolation(ContractViolation),
}

impl<T: View> View for ExecutionResult<T> {
    type V = ExecutionResultView<T::V>;

    open spec fn view(&self) -> ExecutionResultView<T::V> {
        match *self {
            ExecutionResult::Unset => ExecutionResultView::Unset,
            ExecutionResult::Success(item) => ExecutionResultView::Success(item@),
            ExecutionResult::IoError(description) => ExecutionResultView::IoError(description@),
            ExecutionResult::CommandFailure(diagnostic) => ExecutionResultView::CommandFailure(
                diagnostic_view(diagnostic),
            ),
            ExecutionResult::ContractViolation(violation) => ExecutionResultView::ContractViolation(
                violation,
            ),
        }
    }
}

/// The characters of an optional diagnostic.
pub open spec fn diagnostic_view(diagnostic: Option<String>) -> Option<Seq<char>> {
    match diagnostic {
        Some(text) => Some(text@),
        None => None,
    }
}

/// The text that `{:?}` formatting gives for an optional diagnostic.
pub uninterp spec fn diagnostic_debug_text(diagnostic: Option<Seq<char>>) -> Seq<char>;

/// The diagnostic of a command failure, formatted for display.
///
/// Wraps `format!` with the `{:?}` form on an `Option<String>`. The text it
/// gives depends on the diagnostic alone; the contract names it and says
/// nothing of what it holds.
#[verifier::external_body]
fn format_diagnostic(diagnostic: &Option<String>) -> (out: String)
    ensures
        out@ == diagnostic_debug_text(diagnostic_view(*diagnostic)),
{
    format!("{:?}", diagnostic)
}

/// The text by which [`ExecutionResult::err`] reports a contract violation.
pub open spec fn violation_text(violation: ContractViolation) -> Seq<char> {
    match violation {
        ContractViolation::UnexpectedData => "ContractViolation::UnexpectedData"@,
        ContractViolation::MissingData => "ContractViolation::MissingData"@,
        ContractViolation::MalformedData => "ContractViolation::MalformedData"@,
        ContractViolation::UnexpectedOutput => "ContractViolation::UnexpectedOutput"@,
        ContractViolation::UnsetResult => "ContractViolation::UnsetResult"@,
    }
}

impl ContractViolation {
    /// The name of the violation.
    pub fn name(&self) -> (out: &'static str)
        ensures
            out@ == violation_text(*self),
    {
        match self {
            ContractViolation::UnexpectedData => "ContractViolation::UnexpectedData",
            ContractViolation::MissingData => "ContractViolation::MissingData",
            ContractViolation::MalformedData => "ContractViolation::MalformedData",
            ContractViolation::UnexpectedOutput => "ContractViolation::UnexpectedOutput",
            ContractViolation::UnsetResult => "ContractViolation::UnsetResult",
        }
    }
}

impl<T> ExecutionResult<T> {
    /// The value of a successful exchange.
    pub fn unwrap(self) -> (item: T)
        requires
            self is Success,
        ensures
            item == self->Success_0,
    {
        match self {
            ExecutionResult::Success(item) => item,
            _ => vstd::pervasive::unreached(),
        }
    }

    /// The value of a successful exchange. The message documents why the
    /// caller expects success; it plays no part in the result.
    pub fn expect(self, message: &str) -> (item: T)
        requires
            self is Success,
        ensures
            item == self->Success_0,
    {
        match self {
            ExecutionResult::Success(item) => item,
            _ => vstd::pervasive::unreached(),
        }
    }

    /// Whether the exchange did anything but succeed.
    pub fn is_err(&self) -> (failed: bool)
        ensures
            failed == !(self is Success),
    {
        match self {
            ExecutionResult::Success(_) => false,
            ExecutionResult::IoError(_) => true,
            ExecutionResult::CommandFailure(_) => true,
            ExecutionResult::ContractViolation(_) => true,
            ExecutionResult::Unset => true,
        }
    }

    /// Whether the exchange succeeded.
    pub fn is_ok(&self) -> (succeeded: bool)
        ensures
            succeeded == (self is Success),
    {
        !self.is_err()
    }

    /// The failure as text, or nothing for a success.
    pub fn err(self) -> (text: Option<String>)
        ensures
            self is Success <==> text is None,
            self matches ExecutionResult::IoError(description) ==> text->0@ == description@,
            self matches ExecutionResult::CommandFailure(diagnostic) ==> text->0@
                == diagnostic_debug_text(diagnostic_view(diagnostic)),
            self matches ExecutionResult::ContractViolation(violation) ==> text->0@
                == violation_text(violation),
            self is Unset ==> text->0@ == "ExecutionResult::Unset"@,
    {
        match self {
            ExecutionResult::Success(_) => None,
            ExecutionResult::IoError(description) => Some(description),
            ExecutionResult::CommandFailure(diagnostic) => Some(format_diagnostic(&diagnostic)),
            ExecutionResult::ContractViolation(violation) => Some(violation.name().to_string()),
            ExecutionResult::Unset => Some("ExecutionResult::Unset".to_string()),
        }
    }
}

} // verus!
