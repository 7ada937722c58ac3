use mainframe_automation::command::Command;
use mainframe_automation::client_interface::CommandExecutor;
use mainframe_automation::execution_result::{ContractViolation, ExecutionResult};
use mainframe_automation::mainframe_processor::{
    ConditionalOperationTreeNode, NavigateOperation, Operation, OperationCondition,
    OperationContext, OperationOutcome, OperationTreeNode, Screen, SetOperation,
    SetOperationSource, SingleOperationTreeNode, StoreOperation,
};
use mainframe_automation::mainframe_provider::{
    ImmutableMainframeProvider, MainframeProvider, MutableMainframeProvider,
};
use mainframe_automation::provider_operation::FieldBounds;
use mainframe_automation::variable_store::VariableStore;
use mainframe_automation::virtual_terminal::VirtualTerminal;

type Provider = MainframeProvider<VirtualTerminal>;
type Node = OperationTreeNode<Menu, Check>;

/// A screen that is reached by typing its name in the first row.
struct Menu {
    name: &'static str,
    reachable: bool,
}

impl Screen<Provider> for Menu {
    fn is_active(&self, provider: &mut Provider) -> bool {
        provider.get_text_at_location(0, 0, self.name.len() as u8) == ExecutionResult::Success(String::from(self.name))
    }

    fn try_navigate_to(&self, provider: &mut Provider) -> bool {
        self.reachable && provider.set_text_at_location(0, 0, self.name).is_ok()
    }
}

/// The conditions of the tests.
enum Check {
    Always,
    Never,
    Holds(&'static str),
    Shows(u8, u8, &'static str),
}

impl OperationCondition<Provider> for Check {
    fn is_true(&self, variables: &VariableStore, provider: &mut Provider) -> bool {
        match self {
            Check::Always => true,
            Check::Never => false,
            Check::Holds(name) => variables.contains(name),
            Check::Shows(x, y, text) => {
                provider.get_text_at_location(*x, *y, text.len() as u8) == ExecutionResult::Success(String::from(*text))
            }
        }
    }
}

/// A provider whose every operation ends the same way.
struct Failing {
    calls: usize,
    how: fn() -> ExecutionResult<()>,
}

fn pass<T>(result: ExecutionResult<()>) -> ExecutionResult<T> {
    match result {
        ExecutionResult::IoError(description) => ExecutionResult::IoError(description),
        ExecutionResult::CommandFailure(diagnostic) => ExecutionResult::CommandFailure(diagnostic),
        ExecutionResult::ContractViolation(violation) => ExecutionResult::ContractViolation(violation),
        _ => ExecutionResult::Unset,
    }
}

impl ImmutableMainframeProvider for Failing {
    fn get_screen_text(&mut self) -> ExecutionResult<Vec<String>> {
        self.calls += 1;
        pass((self.how)())
    }
    fn get_text_at_location(&mut self, _: u8, _: u8, _: u8) -> ExecutionResult<String> {
        self.calls += 1;
        pass((self.how)())
    }
    fn get_fields_count(&mut self) -> ExecutionResult<u8> {
        self.calls += 1;
        pass((self.how)())
    }
    fn get_field_vector(&mut self) -> ExecutionResult<Option<FieldBounds>> {
        self.calls += 1;
        pass((self.how)())
    }
}

impl MutableMainframeProvider for Failing {
    fn set_text_at_location(&mut self, _: u8, _: u8, _: &str) -> ExecutionResult<()> {
        self.calls += 1;
        (self.how)()
    }
    fn move_to_field_index(&mut self, _: u8) -> ExecutionResult<()> {
        self.calls += 1;
        (self.how)()
    }
}

struct Anywhere;

impl Screen<Failing> for Anywhere {
    fn is_active(&self, _: &mut Failing) -> bool {
        true
    }
    fn try_navigate_to(&self, _: &mut Failing) -> bool {
        true
    }
}

struct Yes;

impl OperationCondition<Failing> for Yes {
    fn is_true(&self, _: &VariableStore, _: &mut Failing) -> bool {
        true
    }
}

fn provider() -> Provider {
    let mut terminal = VirtualTerminal::new(24, 80).expect("the screen should exist");
    assert!(terminal.put_text(3, 10, "Ada Lovelace"));
    terminal.execute(Command::MoveCursor { row: 20, column: 20 });
    MainframeProvider::new(terminal)
}

fn row(provider: &Provider, row: u8) -> String {
    provider.client_interface().row_text(row).expect("the row should be on the screen")
}

fn store(x: u8, y: u8, length: u8, name: &str) -> Operation<Menu> {
    Operation::Store(StoreOperation { x, y, length, variable_name: String::from(name) })
}

fn set_raw(x: u8, y: u8, text: &str) -> Operation<Menu> {
    Operation::SetText(SetOperation { x, y, source: SetOperationSource::RawText(String::from(text)) })
}

fn set_from(x: u8, y: u8, name: &str) -> Operation<Menu> {
    Operation::SetText(SetOperation { x, y, source: SetOperationSource::StoredVariable(String::from(name)) })
}

fn navigate(name: &'static str, reachable: bool) -> Operation<Menu> {
    Operation::Navigate(NavigateOperation { screen: Menu { name, reachable } })
}

fn chain(operations: Vec<Operation<Menu>>) -> Node {
    let mut next: Option<Box<Node>> = None;
    for operation in operations.into_iter().rev() {
        next = Some(Box::new(OperationTreeNode::Single(SingleOperationTreeNode::new(operation, next))));
    }
    *next.expect("a chain should have a step")
}

fn branch(condition: Check, consequent: Node, alternative: Option<Node>) -> Node {
    OperationTreeNode::Conditional(ConditionalOperationTreeNode::new(
        condition,
        Box::new(consequent),
        alternative.map(Box::new),
    ))
}

fn blank() -> String {
    " ".repeat(80)
}

#[test]
fn mainframe_processor_initialize_context() {
    let _operation_context =
        OperationContext::new(vec![(String::from("test"), String::from("something"))]);
}

#[test]
fn processor_logic_initialize_context() {
    let operation_context =
        OperationContext::new(vec![(String::from("test"), String::from("something"))]);
    assert_eq!(operation_context.value_of("test"), Some(&String::from("something")));
}

#[test]
fn context_keeps_the_last_text_of_a_name() {
    let context = OperationContext::new(vec![
        (String::from("a"), String::from("1")),
        (String::from("b"), String::from("2")),
        (String::from("a"), String::from("3")),
    ]);
    assert_eq!(context.value_of("a"), Some(&String::from("3")));
    assert_eq!(context.value_of("b"), Some(&String::from("2")));
    assert_eq!(context.value_of("c"), None);
    assert_eq!(context.value_of(""), None);
}

#[test]
fn store_then_set_copies_the_text() {
    let mut provider = provider();
    let mut context = OperationContext::new(Vec::new());
    let tree = chain(vec![store(10, 3, 12, "name"), set_from(40, 7, "name")]);
    let outcomes = context.process_operations(&mut provider, &tree);
    assert_eq!(outcomes, vec![OperationOutcome::Stored, OperationOutcome::Written]);
    assert_eq!(context.value_of("name"), Some(&String::from("Ada Lovelace")));
    assert_eq!(row(&provider, 7), format!("{}Ada Lovelace{}", " ".repeat(40), " ".repeat(28)));
    assert_eq!(row(&provider, 3), format!("{}Ada Lovelace{}", " ".repeat(10), " ".repeat(58)));
    assert_eq!(provider.client_interface().cursor().row, 20);
    assert_eq!(provider.client_interface().cursor().column, 20);
}

#[test]
fn set_with_unknown_variable_changes_nothing() {
    let mut provider = provider();
    let mut context = OperationContext::new(vec![(String::from("other"), String::from("text"))]);
    let tree = chain(vec![set_from(40, 7, "name")]);
    let outcomes = context.process_operations(&mut provider, &tree);
    assert_eq!(outcomes, vec![OperationOutcome::UnresolvedVariable]);
    assert_eq!(row(&provider, 7), blank());
    assert_eq!(context.value_of("name"), None);
    assert_eq!(context.value_of("other"), Some(&String::from("text")));
}

#[test]
fn set_with_unknown_variable_does_not_reach_the_provider() {
    let mut provider = Failing { calls: 0, how: || ExecutionResult::IoError(String::from("down")) };
    let mut context = OperationContext::new(Vec::new());
    let operation: Operation<Anywhere> = Operation::SetText(SetOperation {
        x: 1,
        y: 1,
        source: SetOperationSource::StoredVariable(String::from("name")),
    });
    assert_eq!(context.process_operation(&mut provider, &operation), OperationOutcome::UnresolvedVariable);
    assert_eq!(provider.calls, 0);
}

#[test]
fn run_goes_on_after_a_skipped_set() {
    let mut provider = provider();
    let mut context = OperationContext::new(Vec::new());
    let tree = chain(vec![set_from(40, 7, "name"), set_raw(0, 8, "next")]);
    let outcomes = context.process_operations(&mut provider, &tree);
    assert_eq!(outcomes, vec![OperationOutcome::UnresolvedVariable, OperationOutcome::Written]);
    assert_eq!(row(&provider, 8), format!("next{}", " ".repeat(76)));
}

#[test]
fn raw_text_is_written_as_it_is() {
    let mut provider = provider();
    let mut context = OperationContext::new(vec![(String::from("raw"), String::from("stored"))]);
    let outcome = context.process_operation(&mut provider, &set_raw(5, 5, "raw"));
    assert_eq!(outcome, OperationOutcome::Written);
    assert_eq!(row(&provider, 5), format!("{}raw{}", " ".repeat(5), " ".repeat(72)));
}

#[test]
fn store_overwrites_what_the_variable_held() {
    let mut provider = provider();
    let mut context = OperationContext::new(vec![
        (String::from("name"), String::from("old")),
        (String::from("other"), String::from("kept")),
    ]);
    assert_eq!(context.process_operation(&mut provider, &store(10, 3, 3, "name")), OperationOutcome::Stored);
    assert_eq!(context.value_of("name"), Some(&String::from("Ada")));
    assert_eq!(context.value_of("other"), Some(&String::from("kept")));
}

#[test]
fn refused_store_keeps_the_variable_and_the_run() {
    let mut provider = provider();
    let mut context = OperationContext::new(vec![(String::from("name"), String::from("old"))]);
    let tree = chain(vec![store(78, 3, 12, "name"), set_from(0, 9, "name")]);
    let outcomes = context.process_operations(&mut provider, &tree);
    assert_eq!(outcomes, vec![OperationOutcome::CommandFailed(None), OperationOutcome::Written]);
    assert_eq!(context.value_of("name"), Some(&String::from("old")));
    assert_eq!(row(&provider, 9), format!("old{}", " ".repeat(77)));
}

#[test]
fn refused_set_keeps_the_run() {
    let mut provider = provider();
    let mut context = OperationContext::new(Vec::new());
    let tree = chain(vec![set_raw(78, 3, "too long"), set_raw(0, 9, "fits")]);
    let outcomes = context.process_operations(&mut provider, &tree);
    assert_eq!(outcomes, vec![OperationOutcome::CommandFailed(None), OperationOutcome::Written]);
}

#[test]
fn navigation_is_delegated_to_the_screen() {
    let mut provider = provider();
    let mut context = OperationContext::new(Vec::new());
    let tree = chain(vec![navigate("MENU", true), navigate("NONE", false), set_raw(0, 9, "on")]);
    let outcomes = context.process_operations(&mut provider, &tree);
    assert_eq!(
        outcomes,
        vec![OperationOutcome::Navigated, OperationOutcome::NavigationFailed, OperationOutcome::Written]
    );
    assert_eq!(row(&provider, 0), format!("MENU{}", " ".repeat(76)));
    assert!(Menu { name: "MENU", reachable: true }.is_active(&mut provider));
    assert!(!Menu { name: "NONE", reachable: true }.is_active(&mut provider));
}

#[test]
fn transport_failure_ends_the_run() {
    let mut provider = Failing { calls: 0, how: || ExecutionResult::IoError(String::from("down")) };
    let mut context = OperationContext::new(Vec::new());
    let first = Operation::Store(StoreOperation { x: 0, y: 0, length: 1, variable_name: String::from("a") });
    let second = Operation::Store(StoreOperation { x: 0, y: 0, length: 1, variable_name: String::from("b") });
    let tree: OperationTreeNode<Anywhere, Yes> = OperationTreeNode::Single(SingleOperationTreeNode::new(
        first,
        Some(Box::new(OperationTreeNode::Single(SingleOperationTreeNode::new(second, None)))),
    ));
    let outcomes = context.process_operations(&mut provider, &tree);
    assert_eq!(outcomes, vec![OperationOutcome::TransportFailed(String::from("down"))]);
    assert_eq!(provider.calls, 1);
    assert!(outcomes[0].ends_run());
}

#[test]
fn broken_contract_ends_the_run() {
    let mut provider = Failing {
        calls: 0,
        how: || ExecutionResult::ContractViolation(ContractViolation::UnexpectedData),
    };
    let mut context = OperationContext::new(Vec::new());
    let first: Operation<Anywhere> = Operation::SetText(SetOperation {
        x: 0,
        y: 0,
        source: SetOperationSource::RawText(String::from("x")),
    });
    let second: Operation<Anywhere> = Operation::Navigate(NavigateOperation { screen: Anywhere });
    let tree: OperationTreeNode<Anywhere, Yes> = OperationTreeNode::Single(SingleOperationTreeNode::new(
        first,
        Some(Box::new(OperationTreeNode::Single(SingleOperationTreeNode::new(second, None)))),
    ));
    let outcomes = context.process_operations(&mut provider, &tree);
    assert_eq!(outcomes, vec![OperationOutcome::ContractBroken(ContractViolation::UnexpectedData)]);
    assert_eq!(provider.calls, 1);
}

#[test]
fn unset_result_breaks_the_contract_of_a_step() {
    let mut provider = Failing { calls: 0, how: || ExecutionResult::Unset };
    let mut context = OperationContext::new(Vec::new());
    let operation: Operation<Anywhere> =
        Operation::Store(StoreOperation { x: 0, y: 0, length: 1, variable_name: String::from("a") });
    assert_eq!(
        context.process_operation(&mut provider, &operation),
        OperationOutcome::ContractBroken(ContractViolation::UnsetResult)
    );
    assert_eq!(context.value_of("a"), None);
}

#[test]
fn outcomes_of_results() {
    assert_eq!(OperationOutcome::of_write(ExecutionResult::Success(())), OperationOutcome::Written);
    assert_eq!(
        OperationOutcome::of_write(ExecutionResult::CommandFailure(Some(String::from("no")))),
        OperationOutcome::CommandFailed(Some(String::from("no")))
    );
    assert_eq!(
        OperationOutcome::of_write(ExecutionResult::IoError(String::from("down"))),
        OperationOutcome::TransportFailed(String::from("down"))
    );
    assert_eq!(
        OperationOutcome::of_write(ExecutionResult::Unset),
        OperationOutcome::ContractBroken(ContractViolation::UnsetResult)
    );
    assert_eq!(OperationOutcome::of_navigation(true), OperationOutcome::Navigated);
    assert_eq!(OperationOutcome::of_navigation(false), OperationOutcome::NavigationFailed);
    for outcome in [
        OperationOutcome::Navigated,
        OperationOutcome::NavigationFailed,
        OperationOutcome::Stored,
        OperationOutcome::Written,
        OperationOutcome::UnresolvedVariable,
        OperationOutcome::CommandFailed(None),
    ] {
        assert!(!outcome.ends_run());
    }
    assert!(OperationOutcome::TransportFailed(String::new()).ends_run());
    assert!(OperationOutcome::ContractBroken(ContractViolation::MissingData).ends_run());
}

#[test]
fn sources_are_resolved() {
    let context = OperationContext::new(vec![(String::from("name"), String::from("Ada"))]);
    assert_eq!(context.resolve(&SetOperationSource::RawText(String::from("name"))), Some(String::from("name")));
    assert_eq!(context.resolve(&SetOperationSource::StoredVariable(String::from("name"))), Some(String::from("Ada")));
    assert_eq!(context.resolve(&SetOperationSource::StoredVariable(String::from("Name"))), None);
}

#[test]
fn store_takes_the_result_of_a_read() {
    let mut context = OperationContext::new(Vec::new());
    assert_eq!(context.store("a", ExecutionResult::Success(String::from("1"))), OperationOutcome::Stored);
    assert_eq!(context.store("a", ExecutionResult::Success(String::from("2"))), OperationOutcome::Stored);
    assert_eq!(
        context.store("a", ExecutionResult::CommandFailure(None)),
        OperationOutcome::CommandFailed(None)
    );
    assert_eq!(context.value_of("a"), Some(&String::from("2")));
}

#[test]
fn branch_follows_the_condition() {
    let tree = || {
        branch(
            Check::Holds("name"),
            chain(vec![set_from(0, 1, "name")]),
            Some(chain(vec![set_raw(0, 2, "nobody")])),
        )
    };
    let mut known = provider();
    let mut context = OperationContext::new(vec![(String::from("name"), String::from("Ada"))]);
    assert_eq!(context.process_operations(&mut known, &tree()), vec![OperationOutcome::Written]);
    assert_eq!(row(&known, 1), format!("Ada{}", " ".repeat(77)));
    assert_eq!(row(&known, 2), blank());
    let mut unknown = provider();
    let mut context = OperationContext::new(Vec::new());
    assert_eq!(context.process_operations(&mut unknown, &tree()), vec![OperationOutcome::Written]);
    assert_eq!(row(&unknown, 1), blank());
    assert_eq!(row(&unknown, 2), format!("nobody{}", " ".repeat(74)));
}

#[test]
fn branch_without_alternative_halts() {
    let mut provider = provider();
    let mut context = OperationContext::new(Vec::new());
    let tree = branch(Check::Never, chain(vec![set_raw(0, 1, "never")]), None);
    assert_eq!(context.process_operations(&mut provider, &tree), Vec::new());
    assert_eq!(row(&provider, 1), blank());
}

#[test]
fn condition_reads_the_screen() {
    let mut provider = provider();
    let mut context = OperationContext::new(Vec::new());
    let tree = branch(
        Check::Shows(10, 3, "Ada"),
        branch(Check::Shows(10, 3, "Bob"), chain(vec![set_raw(0, 1, "bob")]), Some(chain(vec![set_raw(0, 1, "ada")]))),
        None,
    );
    assert_eq!(context.process_operations(&mut provider, &tree), vec![OperationOutcome::Written]);
    assert_eq!(row(&provider, 1), format!("ada{}", " ".repeat(77)));
}

#[test]
fn steps_and_branches_interleave() {
    let mut provider = provider();
    let mut context = OperationContext::new(Vec::new());
    let tail = branch(Check::Holds("name"), chain(vec![set_from(0, 5, "name"), set_raw(0, 6, "done")]), None);
    let tree: Node = OperationTreeNode::Single(SingleOperationTreeNode::new(
        store(10, 3, 3, "name"),
        Some(Box::new(branch(Check::Always, tail, None))),
    ));
    let outcomes = context.process_operations(&mut provider, &tree);
    assert_eq!(outcomes, vec![OperationOutcome::Stored, OperationOutcome::Written, OperationOutcome::Written]);
    assert_eq!(row(&provider, 5), format!("Ada{}", " ".repeat(77)));
    assert_eq!(row(&provider, 6), format!("done{}", " ".repeat(76)));
}

#[test]
fn long_chain_runs_to_its_end() {
    let mut provider = provider();
    let mut context = OperationContext::new(Vec::new());
    let operations: Vec<Operation<Menu>> = (0..2000).map(|i| set_raw((i % 80) as u8, 1, "x")).collect();
    let outcomes = context.process_operations(&mut provider, &chain(operations));
    assert_eq!(outcomes.len(), 2000);
    assert_eq!(row(&provider, 1), "x".repeat(80));
}
