//! The interpreter of operation trees: steps that navigate, store text from
//! the screen in a variable or set text on the screen, and branches that a
//! condition decides.
//!
//! A step that fails on the remote side, a `SetText` whose variable is not
//! there and a navigation that does not arrive are skipped, and the run goes
//! on; each leaves an outcome that says so. A transport failure or a broken
//! contract ends the run.

use crate::execution_result::{
    diagnostic_view,
    ContractViolation,
    ExecutionResult,
    ExecutionResultView,
};
use crate::mainframe_provider::{ImmutableMainframeProvider, MutableMainframeProvider};
use crate::variable_store::{entries_map, VariableStore};
use vstd::prelude::*;

verus! {

/// A screen of the host application that knows how to be reached.
pub trait Screen<T: MutableMainframeProvider> {
    /// Whether the session shows this screen.
    fn is_active(&self, provider: &mut T) -> bool;

    /// Brings the session to this screen and says whether it arrived.
    fn try_navigate_to(&self, provider: &mut T) -> bool;
}

/// What decides a branch, from the variables and from what can be read on the
/// screen.
pub trait OperationCondition<T: ImmutableMainframeProvider> {
    fn is_true(&self, variables: &VariableStore, provider: &mut T) -> bool;
}

/// Go to a screen.
pub struct NavigateOperation<S> {
    pub screen: S,
}

/// Read `length` cells from column `x` of row `y` on and keep the text under
/// `variable_name`.
pub struct StoreOperation {
    pub x: u8,
    pub y: u8,
    pub length: u8,
    pub variable_name: String,
}

/// Where the text of a `SetText` comes from.
pub enum SetOperationSource {
    /// The text itself.
    RawText(String),
    /// The name of the variable that holds the text.
    StoredVariable(String),
}

/// Write text from column `x` of row `y` on.
pub struct SetOperation {
    pub x: u8,
    pub y: u8,
    pub source: SetOperationSource,
}

/// One step of a run.
pub enum Operation<S> {
    Navigate(NavigateOperation<S>),
    Store(StoreOperation),
    SetText(SetOperation),
}

/// A step, and the node that follows it; the run halts where nothing
/// follows.
pub struct SingleOperationTreeNode<S, C> {
    pub operation: Operation<S>,
    pub next: Option<Box<OperationTreeNode<S, C>>>,
}

/// A branch: the run goes on at `consequent` where the condition holds, else
/// at `alternative`, and halts where the condition fails and there is no
/// alternative.
pub struct ConditionalOperationTreeNode<S, C> {
    pub condition: C,
    pub consequent: Box<OperationTreeNode<S, C>>,
    pub alternative: Option<Box<OperationTreeNode<S, C>>>,
}

/// A tree of steps and branches. Every node owns what follows it, so no path
/// comes back to a node it has left.
pub enum OperationTreeNode<S, C> {
    Single(SingleOperationTreeNode<S, C>),
    Conditional(ConditionalOperationTreeNode<S, C>),
}

impl<S, C> SingleOperationTreeNode<S, C> {
    pub fn new(operation: Operation<S>, next: Option<Box<OperationTreeNode<S, C>>>) -> (node:
        Self)
        ensures
            node.operation == operation,
            node.next == next,
    {
        SingleOperationTreeNode { operation, next }
    }
}

impl<S, C> ConditionalOperationTreeNode<S, C> {
    pub fn new(
        condition: C,
        consequent: Box<OperationTreeNode<S, C>>,
        alternative: Option<Box<OperationTreeNode<S, C>>>,
    ) -> (node: Self)
        ensures
            node.condition == condition,
            node.consequent == consequent,
            node.alternative == alternative,
    {
        ConditionalOperationTreeNode { condition, consequent, alternative }
    }
}

impl<S, C> OperationTreeNode<S, C> {
    /// The number of nodes on the longest path from this node on.
    pub open spec fn depth(self) -> nat
        decreases self,
    {
        match self {
            OperationTreeNode::Single(single) => 1 + match single.next {
                Some(next) => next.depth(),
                None => 0,
            },
            OperationTreeNode::Conditional(branch) => {
                let left = branch.consequent.depth();
                let right = match branch.alternative {
                    Some(alternative) => alternative.depth(),
                    None => 0,
                };
                1 + if left >= right {
                    left
                } else {
                    right
                }
            },
        }
    }

    /// The most steps that a path from this node on goes through.
    pub open spec fn steps(self) -> nat
        decreases self,
    {
        match self {
            OperationTreeNode::Single(single) => 1 + match single.next {
                Some(next) => next.steps(),
                None => 0,
            },
            OperationTreeNode::Conditional(branch) => {
                let left = branch.consequent.steps();
                let right = match branch.alternative {
                    Some(alternative) => alternative.steps(),
                    None => 0,
                };
                if left >= right {
                    left
                } else {
                    right
                }
            },
        }
    }
}

/// What became of a step.
#[derive(Clone, Debug, PartialEq, Eq)]
pub enum OperationOutcome {
    /// The screen was reached.
    Navigated,
    /// The screen was not reached. The run goes on.
    NavigationFailed,
    /// The text was read and is now in its variable.
    Stored,
    /// The text was written.
    Written,
    /// The variable of a `SetText` holds nothing, so nothing was written. The
    /// run goes on.
    UnresolvedVariable,
    /// The remote side refused the step, with this diagnostic. The run goes
    /// on.
    CommandFailed(Option<String>),
    /// The transport failed. The run ends.
    TransportFailed(String),
    /// An exchange broke the contract of its command. The run ends.
    ContractBroken(ContractViolation),
}

/// The mathematical value of an [`OperationOutcome`].
pub enum OperationOutcomeView {
    Navigated,
    NavigationFailed,
    Stored,
    Written,
    UnresolvedVariable,
    CommandFailed(Option<Seq<char>>),
    TransportFailed(Seq<char>),
    ContractBroken(ContractViolation),
}

impl View for OperationOutcome {
    type V = OperationOutcomeView;

    open spec fn view(&self) -> OperationOutcomeView {
        match *self {
            OperationOutcome::Navigated => OperationOutcomeView::Navigated,
            OperationOutcome::NavigationFailed => OperationOutcomeView::NavigationFailed,
            OperationOutcome::Stored => OperationOutcomeView::Stored,
            OperationOutcome::Written => OperationOutcomeView::Written,
            OperationOutcome::UnresolvedVariable => OperationOutcomeView::UnresolvedVariable,
            OperationOutcome::CommandFailed(diagnostic) => OperationOutcomeView::CommandFailed(
                diagnostic_view(diagnostic),
            ),
            OperationOutcome::TransportFailed(description) => OperationOutcomeView::TransportFailed(
                description@,
            ),
            OperationOutcome::ContractBroken(violation) => OperationOutcomeView::ContractBroken(
                violation,
            ),
        }
    }
}

impl OperationOutcomeView {
    /// Whether the outcome ends the run.
    pub open spec fn ends_run(self) -> bool {
        self is TransportFailed || self is ContractBroken
    }
}

/// What a step that did not succeed leaves behind, by how its exchange
/// ended.
pub open spec fn failure_outcome<A>(result: ExecutionResultView<A>) -> OperationOutcomeView {
    match result {
        ExecutionResultView::CommandFailure(diagnostic) => OperationOutcomeView::CommandFailed(
            diagnostic,
        ),
        ExecutionResultView::IoError(description) => OperationOutcomeView::TransportFailed(
            description,
        ),
        ExecutionResultView::ContractViolation(violation) => OperationOutcomeView::ContractBroken(
            violation,
        ),
        ExecutionResultView::Unset => OperationOutcomeView::ContractBroken(
            ContractViolation::UnsetResult,
        ),
        ExecutionResultView::Success(_) => OperationOutcomeView::ContractBroken(
            ContractViolation::UnexpectedOutput,
        ),
    }
}

/// What a `Store` step leaves behind, by how its read ended.
pub open spec fn store_outcome(result: ExecutionResultView<Seq<char>>) -> OperationOutcomeView {
    match result {
        ExecutionResultView::Success(_) => OperationOutcomeView::Stored,
        _ => failure_outcome(result),
    }
}

/// The variables after a `Store` step into `variable_name`, by how its read
/// ended: text that was read replaces what the variable held, and nothing
/// changes otherwise.
pub open spec fn store_variables(
    variables: Map<Seq<char>, Seq<char>>,
    variable_name: Seq<char>,
    result: ExecutionResultView<Seq<char>>,
) -> Map<Seq<char>, Seq<char>> {
    match result {
        ExecutionResultView::Success(text) => variables.insert(variable_name, text),
        _ => variables,
    }
}

/// What a `SetText` step leaves behind, by how its write ended.
pub open spec fn write_outcome(result: ExecutionResultView<()>) -> OperationOutcomeView {
    match result {
        ExecutionResultView::Success(_) => OperationOutcomeView::Written,
        _ => failure_outcome(result),
    }
}

/// The text that a `SetText` writes, if its source has any: raw text is itself,
/// and a variable is what it holds.
pub open spec fn resolved_text(
    variables: Map<Seq<char>, Seq<char>>,
    source: SetOperationSource,
) -> Option<Seq<char>> {
    match source {
        SetOperationSource::RawText(text) => Some(text@),
        SetOperationSource::StoredVariable(variable_name) => if variables.contains_key(
            variable_name@,
        ) {
            Some(variables[variable_name@])
        } else {
            None
        },
    }
}

/// The number of nodes on the longest path that a run has before it.
pub open spec fn depth_from<S, C>(current: Option<OperationTreeNode<S, C>>) -> nat {
    match current {
        Some(node) => node.depth(),
        None => 0,
    }
}

/// What a navigation leaves behind, by whether it arrived.
pub open spec fn navigation_outcome(arrived: bool) -> OperationOutcomeView {
    if arrived {
        OperationOutcomeView::Navigated
    } else {
        OperationOutcomeView::NavigationFailed
    }
}

/// One thing that a run asked of those it works with, and the answer it
/// got: of the provider a read or a write, of a screen a navigation, of a
/// condition its verdict.
pub enum Consulted {
    Read { x: u8, y: u8, length: u8, answer: ExecutionResultView<Seq<char>> },
    Wrote { x: u8, y: u8, text: Seq<char>, reply: ExecutionResultView<()> },
    Navigated { arrived: bool },
    Decided { holds: bool },
}

/// What one step comes to: the variables after it and its outcome, given
/// what it asked and was answered in `made`. There is nothing where `made`
/// is not what the step asks.
///
/// A `Store` asks for one read of its cells; text that was read goes into
/// its variable. A `SetText` whose source has text asks for one write of that
/// text at its place; one whose variable holds nothing asks for nothing. A
/// `Navigate` asks its screen once.
pub open spec fn step<S>(
    operation: Operation<S>,
    variables: Map<Seq<char>, Seq<char>>,
    made: Seq<Consulted>,
) -> Option<(Map<Seq<char>, Seq<char>>, OperationOutcomeView)> {
    match operation {
        Operation::Navigate(_) => if made.len() == 1 && made[0] is Navigated {
            Some((variables, navigation_outcome(made[0]->arrived)))
        } else {
            None
        },
        Operation::Store(store) => if made.len() == 1 {
            match made[0] {
                Consulted::Read { x, y, length, answer } => if x == store.x && y == store.y
                    && length == store.length {
                    Some(
                        (
                            store_variables(variables, store.variable_name@, answer),
                            store_outcome(answer),
                        ),
                    )
                } else {
                    None
                },
                _ => None,
            }
        } else {
            None
        },
        Operation::SetText(set) => match resolved_text(variables, set.source) {
            None => if made.len() == 0 {
                Some((variables, OperationOutcomeView::UnresolvedVariable))
            } else {
                None
            },
            Some(resolved) => if made.len() == 1 {
                match made[0] {
                    Consulted::Wrote { x, y, text, reply } => if x == set.x && y == set.y && text
                        == resolved {
                        Some((variables, write_outcome(reply)))
                    } else {
                        None
                    },
                    _ => None,
                }
            } else {
                None
            },
        },
    }
}

/// How many answers one step takes.
pub open spec fn asks<S>(operation: Operation<S>, variables: Map<Seq<char>, Seq<char>>) -> nat {
    match operation {
        Operation::SetText(set) => if resolved_text(variables, set.source) is None {
            0
        } else {
            1
        },
        _ => 1,
    }
}

/// What a run comes to that stands before `current` with `variables` and
/// the outcomes `outcomes` behind it, given what it asks and is answered
/// from here on in `made`: the variables and the outcomes at its end. There
/// is nothing where `made` is not what the run asks, or does not end where
/// the run ends.
///
/// The run halts where no node is left. At a step it takes the answers of
/// the step, and goes on behind it unless the outcome ends the run. At a
/// branch it takes the verdict of the condition and goes on at the
/// consequent or at the alternative.
pub open spec fn walk<S, C>(
    current: Option<OperationTreeNode<S, C>>,
    variables: Map<Seq<char>, Seq<char>>,
    outcomes: Seq<OperationOutcomeView>,
    made: Seq<Consulted>,
) -> Option<(Map<Seq<char>, Seq<char>>, Seq<OperationOutcomeView>)>
    decreases depth_from(current),
{
    match current {
        None => if made.len() == 0 {
            Some((variables, outcomes))
        } else {
            None
        },
        Some(OperationTreeNode::Single(single)) => {
            let taken = asks(single.operation, variables) as int;
            if made.len() < taken {
                None
            } else {
                match step(single.operation, variables, made.take(taken)) {
                    None => None,
                    Some((after, outcome)) => {
                        let next = if outcome.ends_run() {
                            None
                        } else {
                            match single.next {
                                Some(following) => Some(*following),
                                None => None,
                            }
                        };
                        walk(next, after, outcomes.push(outcome), made.skip(taken))
                    },
                }
            }
        },
        Some(OperationTreeNode::Conditional(branch)) => {
            if made.len() >= 1 && made[0] is Decided {
                let next = if made[0]->holds {
                    Some(*branch.consequent)
                } else {
                    match branch.alternative {
                        Some(alternative) => Some(*alternative),
                        None => None,
                    }
                };
                walk(next, variables, outcomes, made.skip(1))
            } else {
                None
            }
        },
    }
}

/// The node that a run stands before, if it stands before one.
pub open spec fn standing_before<S, C>(current: Option<&OperationTreeNode<S, C>>) -> Option<
    OperationTreeNode<S, C>,
> {
    match current {
        Some(node) => Some(*node),
        None => None,
    }
}

/// The mathematical values of `outcomes`.
pub open spec fn outcome_views(outcomes: Seq<OperationOutcome>) -> Seq<OperationOutcomeView> {
    Seq::new(outcomes.len(), |i: int| outcomes[i]@)
}

/// The outcome of a failed exchange.
fn outcome_of_failure<A>(result: ExecutionResult<A>) -> (outcome: OperationOutcome)
    requires
        !(result is Success),
    ensures
        !(outcome is Stored),
        !(outcome is Written),
        result matches ExecutionResult::CommandFailure(diagnostic) ==> outcome@
            == OperationOutcomeView::CommandFailed(diagnostic_view(diagnostic)),
        result matches ExecutionResult::IoError(description) ==> outcome@
            == OperationOutcomeView::TransportFailed(description@),
        result matches ExecutionResult::ContractViolation(violation) ==> outcome@
            == OperationOutcomeView::ContractBroken(violation),
        result is Unset ==> outcome@ == OperationOutcomeView::ContractBroken(
            ContractViolation::UnsetResult,
        ),
{
    match result {
        ExecutionResult::CommandFailure(diagnostic) => OperationOutcome::CommandFailed(diagnostic),
        ExecutionResult::IoError(description) => OperationOutcome::TransportFailed(description),
        ExecutionResult::ContractViolation(violation) => OperationOutcome::ContractBroken(
            violation,
        ),
        _ => OperationOutcome::ContractBroken(ContractViolation::UnsetResult),
    }
}

impl OperationOutcome {
    /// Whether the outcome ends the run.
    pub fn ends_run(&self) -> (yes: bool)
        ensures
            yes == self@.ends_run(),
    {
        match self {
            OperationOutcome::TransportFailed(_) | OperationOutcome::ContractBroken(_) => true,
            _ => false,
        }
    }

    /// What a `SetText` step leaves behind, by how its write ended.
    pub fn of_write(result: ExecutionResult<()>) -> (outcome: OperationOutcome)
        ensures
            outcome@ == write_outcome(result@),
    {
        match result {
            ExecutionResult::Success(_) => OperationOutcome::Written,
            failure => outcome_of_failure(failure),
        }
    }

    /// What a navigation leaves behind, by whether it arrived.
    pub fn of_navigation(arrived: bool) -> (outcome: OperationOutcome)
        ensures
            outcome@ == navigation_outcome(arrived),
    {
        if arrived {
            OperationOutcome::Navigated
        } else {
            OperationOutcome::NavigationFailed
        }
    }
}

/// The state of one run: its variables.
pub struct OperationContext {
    value_per_variable_name: VariableStore,
    consulted: Ghost<Seq<Consulted>>,
}

impl OperationContext {
    /// The variables and their text.
    pub closed spec fn variables(&self) -> Map<Seq<char>, Seq<char>> {
        self.value_per_variable_name@
    }

    /// Everything that the run has asked so far, with the answers, in order.
    pub closed spec fn consulted(&self) -> Seq<Consulted> {
        self.consulted@
    }

    /// What the run has asked since it was `before`.
    pub open spec fn consulted_since(&self, before: &Self) -> Seq<Consulted> {
        self.consulted().skip(before.consulted().len() as int)
    }

    /// A run that starts with the variables of `value_per_variable_name`;
    /// where a name occurs more than once, its last text stays.
    pub fn new(value_per_variable_name: Vec<(String, String)>) -> (context: OperationContext)
        ensures
            context.variables() == entries_map(value_per_variable_name@),
            context.consulted() == Seq::<Consulted>::empty(),
    {
        OperationContext {
            value_per_variable_name: VariableStore::from_pairs(value_per_variable_name),
            consulted: Ghost(Seq::empty()),
        }
    }

    /// The text stored under `variable_name`, if there is any.
    pub fn value_of(&self, variable_name: &str) -> (value: Option<&String>)
        ensures
            match value {
                Some(text) => self.variables().contains_key(variable_name@) && text@
                    == self.variables()[variable_name@],
                None => !self.variables().contains_key(variable_name@),
            },
    {
        self.value_per_variable_name.get(variable_name)
    }

    /// The text that a `SetText` with this source writes, if the source has any.
    pub fn resolve(&self, source: &SetOperationSource) -> (text: Option<String>)
        ensures
            match text {
                Some(t) => resolved_text(self.variables(), *source) == Some(t@),
                None => resolved_text(self.variables(), *source) is None,
            },
    {
        match source {
            SetOperationSource::RawText(text) => Some(text.clone()),
            SetOperationSource::StoredVariable(variable_name) => {
                match self.value_per_variable_name.get(variable_name.as_str()) {
                    Some(text) => Some(text.clone()),
                    None => None,
                }
            },
        }
    }

    /// Takes what the read of a `Store` step into `variable_name` came to.
    pub fn store(&mut self, variable_name: &str, result: ExecutionResult<String>) -> (outcome:
        OperationOutcome)
        ensures
            outcome@ == store_outcome(result@),
            final(self).variables() == store_variables(
                old(self).variables(),
                variable_name@,
                result@,
            ),
            final(self).consulted() == old(self).consulted(),
    {
        match result {
            ExecutionResult::Success(text) => {
                self.value_per_variable_name.insert(variable_name.to_owned(), text);
                OperationOutcome::Stored
            },
            failure => outcome_of_failure(failure),
        }
    }

    /// Carries out one step on `provider`.
    ///
    /// The step asks what [`step`] says it asks, and the variables and the
    /// outcome are what [`step`] makes of the answer. So a `Store` changes
    /// no variable but its own, and that one only where it read text; a
    /// `Navigate` and a `SetText` change no variable; and a `SetText` whose variable
    /// holds nothing does not touch the provider.
    pub fn process_operation<T: MutableMainframeProvider, S: Screen<T>>(
        &mut self,
        provider: &mut T,
        operation: &Operation<S>,
    ) -> (outcome: OperationOutcome)
        ensures
            old(self).consulted().is_prefix_of(final(self).consulted()),
            final(self).consulted_since(old(self)).len() == asks(
                *operation,
                old(self).variables(),
            ),
            step(*operation, old(self).variables(), final(self).consulted_since(old(self)))
                == Some((final(self).variables(), outcome@)),
            asks(*operation, old(self).variables()) == 0 ==> *final(provider) == *old(provider),
    {
        let ghost before = self.consulted@;
        let ghost asked: Seq<Consulted>;
        let outcome = match operation {
            Operation::Navigate(navigate) => {
                let arrived = navigate.screen.try_navigate_to(provider);
                proof {
                    asked = seq![Consulted::Navigated { arrived }];
                }
                OperationOutcome::of_navigation(arrived)
            },
            Operation::Store(store) => {
                let result = provider.get_text_at_location(store.x, store.y, store.length);
                proof {
                    asked =
                    seq![
                        Consulted::Read {
                            x: store.x,
                            y: store.y,
                            length: store.length,
                            answer: result@,
                        },
                    ];
                }
                self.store(store.variable_name.as_str(), result)
            },
            Operation::SetText(set) => {
                match self.resolve(&set.source) {
                    Some(text) => {
                        let result = provider.set_text_at_location(set.x, set.y, text.as_str());
                        proof {
                            asked =
                            seq![
                                Consulted::Wrote { x: set.x, y: set.y, text: text@, reply: result@ },
                            ];
                        }
                        OperationOutcome::of_write(result)
                    },
                    None => {
                        proof {
                            asked = Seq::empty();
                        }
                        OperationOutcome::UnresolvedVariable
                    },
                }
            },
        };
        proof {
            self.consulted@ = before + asked;
            assert((before + asked).skip(before.len() as int) == asked);
        }
        outcome
    }

    /// Runs the tree from `operations` on: carries out each step it comes to,
    /// asks the condition at each branch, and halts where nothing follows or
    /// where an outcome ends the run.
    ///
    /// The run asks what [`walk`] says it asks, and the variables at its end
    /// and the outcomes of its steps, in the order of the steps, are what
    /// [`walk`] makes of the answers. Only the last outcome can be one that
    /// ends a run, and there are no more outcomes than the longest path of
    /// the tree has steps.
    pub fn process_operations<
        T: MutableMainframeProvider,
        S: Screen<T>,
        C: OperationCondition<T>,
    >(&mut self, provider: &mut T, operations: &OperationTreeNode<S, C>) -> (outcomes: Vec<
        OperationOutcome,
    >)
        ensures
            old(self).consulted().is_prefix_of(final(self).consulted()),
            walk(
                Some(*operations),
                old(self).variables(),
                Seq::empty(),
                final(self).consulted_since(old(self)),
            ) == Some((final(self).variables(), outcome_views(outcomes@))),
            outcomes.len() <= operations.steps(),
            forall|i: int| 0 <= i < outcomes.len() - 1 ==> !(#[trigger] outcomes@[i])@.ends_run(),
    {
        let ghost begun = self.consulted@;
        let ghost variables = self.variables();
        let ghost mut made: Seq<Consulted> = Seq::empty();
        let mut outcomes: Vec<OperationOutcome> = Vec::new();
        let mut current: Option<&OperationTreeNode<S, C>> = Some(operations);
        proof {
            assert(begun + made == begun);
            assert(outcome_views(outcomes@) == Seq::<OperationOutcomeView>::empty());
            assert forall|rest: Seq<Consulted>|
                walk(Some(*operations), variables, Seq::empty(), made + rest) == #[trigger] walk(
                    Some(*operations),
                    self.variables(),
                    outcome_views(outcomes@),
                    rest,
                ) by {
                assert(made + rest == rest);
            }
        }
        while current.is_some()
            invariant
                self.consulted() == begun + made,
                forall|rest: Seq<Consulted>|
                    walk(Some(*operations), variables, Seq::empty(), made + rest)
                        == #[trigger] walk(
                        standing_before(current),
                        self.variables(),
                        outcome_views(outcomes@),
                        rest,
                    ),
                match current {
                    Some(node) => outcomes.len() + node.steps() <= operations.steps(),
                    None => outcomes.len() <= operations.steps(),
                },
                forall|i: int|
                    0 <= i < outcomes.len() - (if current is None {
                        1int
                    } else {
                        0int
                    }) ==> !(#[trigger] outcomes@[i])@.ends_run(),
            decreases
                    match current {
                        Some(node) => node.depth(),
                        None => 0,
                    },
        {
            let node = current.unwrap();
            let ghost here = standing_before(current);
            let ghost variables_here = self.variables();
            let ghost outcomes_here = outcome_views(outcomes@);
            let ghost made_here = made;
            match node {
                OperationTreeNode::Single(single) => {
                    let ghost earlier = self.consulted();
                    let outcome = self.process_operation(provider, &single.operation);
                    let ends = outcome.ends_run();
                    let ghost asked = self.consulted().skip(earlier.len() as int);
                    let ghost outcome_view = outcome@;
                    outcomes.push(outcome);
                    if ends {
                        current = None;
                    } else {
                        current = match &single.next {
                            Some(next) => Some(&**next),
                            None => None,
                        };
                    }
                    proof {
                        assert(self.consulted() == earlier + asked);
                        made = made_here + asked;
                        assert(begun + made == (begun + made_here) + asked);
                        assert(outcome_views(outcomes@) == outcomes_here.push(outcome_view));
                        let next = standing_before(current);
                        assert forall|rest: Seq<Consulted>|
                            walk(Some(*operations), variables, Seq::empty(), made + rest)
                                == #[trigger] walk(
                                next,
                                self.variables(),
                                outcome_views(outcomes@),
                                rest,
                            ) by {
                            let longer = asked + rest;
                            assert(made + rest == made_here + longer);
                            assert(walk(
                                Some(*operations),
                                variables,
                                Seq::empty(),
                                made_here + longer,
                            ) == walk(here, variables_here, outcomes_here, longer));
                            assert(longer.take(asked.len() as int) == asked);
                            assert(longer.skip(asked.len() as int) == rest);
                        }
                    }
                },
                OperationTreeNode::Conditional(branch) => {
                    let holds = branch.condition.is_true(&self.value_per_variable_name, provider);
                    if holds {
                        current = Some(&*branch.consequent);
                    } else {
                        current = match &branch.alternative {
                            Some(alternative) => Some(&**alternative),
                            None => None,
                        };
                    }
                    proof {
                        let asked = seq![Consulted::Decided { holds }];
                        made = made_here + asked;
                        self.consulted@ = self.consulted@ + asked;
                        assert(begun + made == (begun + made_here) + asked);
                        let next = standing_before(current);
                        assert forall|rest: Seq<Consulted>|
                            walk(Some(*operations), variables, Seq::empty(), made + rest)
                                == #[trigger] walk(
                                next,
                                self.variables(),
                                outcome_views(outcomes@),
                                rest,
                            ) by {
                            let longer = asked + rest;
                            assert(made + rest == made_here + longer);
                            assert(walk(
                                Some(*operations),
                                variables,
                                Seq::empty(),
                                made_here + longer,
                            ) == walk(here, variables_here, outcomes_here, longer));
                            assert(longer[0] == asked[0]);
                            assert(longer.skip(1) == rest);
                        }
                    }
                },
            }
        }
        proof {
            assert((begun + made).skip(begun.len() as int) == made);
            assert(made + Seq::<Consulted>::empty() == made);
            assert(walk(Some(*operations), variables, Seq::empty(), made) == walk(
                standing_before(current),
                self.variables(),
                outcome_views(outcomes@),
                Seq::empty(),
            ));
        }
        outcomes
    }
}

} // verus!
