//! The composition root: the instances, their bindings and the calls
//! between them.
//!
//! The root owns the graph of a composition and what every instance does.
//! It is built once; the bindings are frozen from then on. Every call goes
//! through the root: the arguments arrive in wire form, are lifted against
//! the signature of the operation, and the result is lowered by the callee
//! and lifted against the declared result type on the way back. A call to an
//! import is an ordinary nested call of the same kind. Because every
//! instance is bound to instances of lower rank only, the nesting ends.

use vstd::prelude::*;
use vstd::utf8::encode_utf8;
use crate::adder::add_outcome;
use crate::compose::{
    CompositionGraph,
    GraphModel,
    compose,
    is_composable,
    is_composition,
    is_rejection,
};
use crate::contract::{Operation, Value, ValueModel, value_outcome, values_model};
use crate::dependency::ints;
use crate::descriptor::{ComponentDescriptor, ComponentModel, descriptor_model};
use crate::fault::{CallError, ConfigurationError};
use crate::marshal::{
    Wire,
    WireModel,
    wire_outcome,
    lift_all,
    lifted,
    lifted_all,
    lower_all,
    lowered,
    wires_model,
};

verus! {

/// What an instance does when one of its exports is called.
#[derive(Debug, Clone, Copy, PartialEq, Eq, Structural)]
pub enum Behavior {
    /// Implements `add`: returns the sum of the two arguments, and faults
    /// where the sum overflows. Uses no import.
    Adder,
    /// Implements `eval_expression`: ignores the expression, calls `add` on
    /// its first import with the two operands and returns the sum.
    Calculator { lhs: i32, rhs: i32 },
    /// Implements `eval_expression`: hands the expression to
    /// `eval_expression` on its first import and returns what comes back.
    Runner,
}

/// A component: its place in the composition and what it does.
#[derive(Debug, Clone, PartialEq, Eq)]
pub struct Component {
    pub descriptor: ComponentDescriptor,
    pub behavior: Behavior,
}

/// The descriptors of a list of components.
pub open spec fn component_models(components: Seq<Component>) -> Seq<ComponentModel> {
    components.map_values(|c: Component| c.descriptor@)
}

/// The behaviors of a list of components.
pub open spec fn component_behaviors(components: Seq<Component>) -> Seq<Behavior> {
    components.map_values(|c: Component| c.behavior)
}

/// The instances of a composition and their frozen bindings.
#[derive(Debug)]
pub struct CompositionRoot {
    graph: CompositionGraph,
    behaviors: Vec<Behavior>,
}

/// The mathematical content of a [`CompositionRoot`].
pub struct RootModel {
    pub graph: GraphModel,
    pub behaviors: Seq<Behavior>,
}

impl RootModel {
    /// The graph is well formed and every component of it has a behavior.
    pub open spec fn wf(self) -> bool {
        &&& self.graph.wf()
        &&& self.behaviors.len() == self.graph.bindings.len()
    }

    /// True when instance `c` has an import number `s`.
    pub open spec fn has_import(self, c: int, s: int) -> bool {
        0 <= c < self.graph.bindings.len() && 0 <= s < self.graph.bindings[c].len()
    }
}

/// What the adder hands back for the given arguments.
pub open spec fn adder_result(arguments: Seq<ValueModel>) -> Result<WireModel, CallError> {
    if arguments.len() == 2 {
        match (arguments[0], arguments[1]) {
            (ValueModel::S32(a), ValueModel::S32(b)) => match add_outcome(a, b) {
                Ok(sum) => Ok(WireModel::Word(sum as i64)),
                Err(e) => Err(e),
            },
            _ => Err(CallError::ContractViolation),
        }
    } else {
        Err(CallError::ContractViolation)
    }
}

/// What an instance hands back after a nested call: the value it got,
/// lowered again, or the failure it got, unchanged. No default takes the
/// place of a failure.
pub open spec fn relayed(inner: Result<ValueModel, CallError>) -> Result<WireModel, CallError> {
    match inner {
        Ok(v) => Ok(lowered(v)),
        Err(e) => Err(e),
    }
}

/// The wire forms of the two operands of a calculator.
pub open spec fn operand_wires(lhs: i32, rhs: i32) -> Seq<WireModel> {
    seq![WireModel::Word(lhs as i64), WireModel::Word(rhs as i64)]
}

/// What instance `target` hands back when `operation` is called on it with
/// arguments that the boundary has accepted.
pub open spec fn produced(
    root: RootModel,
    target: int,
    operation: Operation,
    arguments: Seq<ValueModel>,
) -> Result<WireModel, CallError>
    decreases root.graph.rank[target], 0int,
{
    if root.wf() && 0 <= target < root.behaviors.len() {
        match (root.behaviors[target], operation) {
            (Behavior::Adder, Operation::Add) => adder_result(arguments),
            (Behavior::Calculator { lhs, rhs }, Operation::EvalExpression) => {
                if root.has_import(target, 0) {
                    relayed(
                        outcome(
                            root,
                            root.graph.bindings[target][0],
                            Operation::Add,
                            operand_wires(lhs, rhs),
                        ),
                    )
                } else {
                    Err(CallError::BoundaryFault)
                }
            },
            (Behavior::Runner, Operation::EvalExpression) => {
                if root.has_import(target, 0) {
                    relayed(
                        outcome(
                            root,
                            root.graph.bindings[target][0],
                            Operation::EvalExpression,
                            arguments.map_values(|v: ValueModel| lowered(v)),
                        ),
                    )
                } else {
                    Err(CallError::BoundaryFault)
                }
            },
            _ => Err(CallError::ContractViolation),
        }
    } else {
        Err(CallError::ContractViolation)
    }
}

/// The outcome of calling `operation` on instance `target` with the
/// arguments `wires`.
///
/// The call is a contract violation where the root has no such instance,
/// where the arguments do not fit the signature of the operation, where the
/// instance does not implement the operation, and where what the instance
/// hands back is not a value of the declared result type. It is a boundary
/// fault where the instance faults. Every failure of a nested call is the
/// failure of the call itself.
pub open spec fn outcome(
    root: RootModel,
    target: int,
    operation: Operation,
    wires: Seq<WireModel>,
) -> Result<ValueModel, CallError>
    decreases root.graph.rank[target], 1int,
{
    if root.wf() && 0 <= target < root.behaviors.len() {
        match lifted_all(wires, operation.params()) {
            Ok(arguments) => match produced(root, target, operation, arguments) {
                Ok(w) => lifted(w, operation.result()),
                Err(e) => Err(e),
            },
            Err(e) => Err(e),
        }
    } else {
        Err(CallError::ContractViolation)
    }
}

/// The wire form of the one argument of `eval_expression`.
pub open spec fn text_wires(text: Seq<char>) -> Seq<WireModel> {
    seq![WireModel::Bytes(encode_utf8(text))]
}

/// The outcome of calling `eval_expression` on instance `target`.
pub open spec fn eval_outcome(root: RootModel, target: int, text: Seq<char>) -> Result<
    u32,
    CallError,
> {
    match outcome(root, target, Operation::EvalExpression, text_wires(text)) {
        Ok(ValueModel::U32(v)) => Ok(v),
        Ok(_) => Err(CallError::ContractViolation),
        Err(e) => Err(e),
    }
}

/// The outcome of calling `add` on instance `target`.
pub open spec fn sum_outcome(root: RootModel, target: int, a: i32, b: i32) -> Result<
    i32,
    CallError,
> {
    match outcome(root, target, Operation::Add, operand_wires(a, b)) {
        Ok(ValueModel::S32(v)) => Ok(v),
        Ok(_) => Err(CallError::ContractViolation),
        Err(e) => Err(e),
    }
}

impl View for CompositionRoot {
    type V = RootModel;

    closed spec fn view(&self) -> RootModel {
        RootModel { graph: self.graph@, behaviors: self.behaviors@ }
    }
}

impl CompositionRoot {
    #[verifier::type_invariant]
    spec fn inv(self) -> bool {
        self@.wf()
    }

    /// Composes the components and creates the root, or says why the
    /// descriptor of the components cannot be composed.
    pub fn instantiate(components: Vec<Component>) -> (r: Result<
        CompositionRoot,
        ConfigurationError,
    >)
        ensures
            r is Ok <==> is_composable(component_models(components@)),
            match r {
                Ok(root) => {
                    &&& root@.wf()
                    &&& is_composition(component_models(components@), root@.graph)
                    &&& root@.behaviors == component_behaviors(components@)
                },
                Err(e) => is_rejection(component_models(components@), e),
            },
    {
        let (descriptors, behaviors) = split(components);
        match compose(&descriptors) {
            Ok(graph) => Ok(CompositionRoot { graph, behaviors }),
            Err(e) => Err(e),
        }
    }

    /// The number of instances.
    pub fn len(&self) -> (n: usize)
        ensures
            n == self@.behaviors.len(),
            self@.wf(),
    {
        proof {
            use_type_invariant(self);
        }
        self.behaviors.len()
    }

    /// The graph of the composition.
    pub fn graph(&self) -> (g: &CompositionGraph)
        ensures
            g@ == self@.graph,
    {
        &self.graph
    }

    /// Ends the composition. The instances go with the root, none outlives
    /// it; they are torn down in the reverse of the order in which they were
    /// instantiated, and that order is returned.
    pub fn teardown(self) -> (order: Vec<usize>)
        ensures
            ints(order@) == self@.graph.order.reverse(),
    {
        self.graph.teardown_order()
    }

    /// Calls `operation` on instance `target`.
    pub fn invoke(&self, target: usize, operation: Operation, arguments: &Vec<Wire>) -> (r: Result<
        Value,
        CallError,
    >)
        ensures
            value_outcome(r) == outcome(self@, target as int, operation, wires_model(arguments@)),
        decreases self@.graph.rank[target as int], 1int,
    {
        proof {
            use_type_invariant(self);
        }
        if target >= self.behaviors.len() {
            return Err(CallError::ContractViolation);
        }
        let values = match lift_all(arguments, &operation.param_types()) {
            Ok(values) => values,
            Err(e) => {
                return Err(e);
            },
        };
        match self.execute(target, operation, &values) {
            Ok(w) => w.lift(operation.result_type()),
            Err(e) => Err(e),
        }
    }

    /// Calls `eval_expression` on instance `target`.
    pub fn eval_expression(&self, target: usize, expr: &str) -> (r: Result<u32, CallError>)
        ensures
            r == eval_outcome(self@, target as int, expr@),
    {
        let mut arguments: Vec<Wire> = Vec::new();
        arguments.push(Wire::Bytes(expr.as_bytes_vec()));
        assert(wires_model(arguments@) =~= text_wires(expr@));
        match self.invoke(target, Operation::EvalExpression, &arguments) {
            Ok(Value::U32(v)) => Ok(v),
            Ok(_) => Err(CallError::ContractViolation),
            Err(e) => Err(e),
        }
    }

    /// Calls `add` on instance `target`.
    pub fn add(&self, target: usize, a: i32, b: i32) -> (r: Result<i32, CallError>)
        ensures
            r == sum_outcome(self@, target as int, a, b),
    {
        let mut arguments: Vec<Wire> = Vec::new();
        arguments.push(Wire::Word(a as i64));
        arguments.push(Wire::Word(b as i64));
        match self.invoke(target, Operation::Add, &arguments) {
            Ok(Value::S32(v)) => Ok(v),
            Ok(_) => Err(CallError::ContractViolation),
            Err(e) => Err(e),
        }
    }

    /// Runs the behavior of instance `target` on arguments that the boundary
    /// has accepted.
    fn execute(&self, target: usize, operation: Operation, arguments: &Vec<Value>) -> (r: Result<
        Wire,
        CallError,
    >)
        requires
            target < self@.behaviors.len(),
        ensures
            wire_outcome(r) == produced(self@, target as int, operation, values_model(arguments@)),
        decreases self@.graph.rank[target as int], 0int,
    {
        proof {
            use_type_invariant(self);
        }
        match (self.behaviors[target], operation) {
            (Behavior::Adder, Operation::Add) => {
                if arguments.len() != 2 {
                    return Err(CallError::ContractViolation);
                }
                match (&arguments[0], &arguments[1]) {
                    (Value::S32(a), Value::S32(b)) => match crate::adder::add(*a, *b) {
                        Ok(sum) => Ok(Wire::Word(sum as i64)),
                        Err(e) => Err(e),
                    },
                    _ => Err(CallError::ContractViolation),
                }
            },
            (Behavior::Calculator { lhs, rhs }, Operation::EvalExpression) => {
                match self.graph.provider(target, 0) {
                    Some(provider) => {
                        let mut operands: Vec<Wire> = Vec::new();
                        operands.push(Wire::Word(lhs as i64));
                        operands.push(Wire::Word(rhs as i64));
                        assert(wires_model(operands@) =~= operand_wires(lhs, rhs));
                        match self.invoke(provider, Operation::Add, &operands) {
                            Ok(v) => Ok(v.lower()),
                            Err(e) => Err(e),
                        }
                    },
                    None => Err(CallError::BoundaryFault),
                }
            },
            (Behavior::Runner, Operation::EvalExpression) => {
                match self.graph.provider(target, 0) {
                    Some(provider) => {
                        let wires = lower_all(arguments);
                        match self.invoke(provider, Operation::EvalExpression, &wires) {
                            Ok(v) => Ok(v.lower()),
                            Err(e) => Err(e),
                        }
                    },
                    None => Err(CallError::BoundaryFault),
                }
            },
            _ => Err(CallError::ContractViolation),
        }
    }
}


/// Splits components into their descriptors and their behaviors.
fn split(components: Vec<Component>) -> (r: (Vec<ComponentDescriptor>, Vec<Behavior>))
    ensures
        descriptor_model(r.0@) == component_models(components@),
        r.1@ == component_behaviors(components@),
{
    let mut descriptors: Vec<ComponentDescriptor> = Vec::new();
    let mut behaviors: Vec<Behavior> = Vec::new();
    for component in it: components
        invariant
            descriptors.len() == it.index(),
            behaviors.len() == it.index(),
            forall|i: int|
                0 <= i < it.index() ==> descriptors[i]@ == (#[trigger] it.seq()[i]).descriptor@,
            forall|i: int|
                0 <= i < it.index() ==> behaviors[i] == (#[trigger] it.seq()[i]).behavior,
    {
        behaviors.push(component.behavior);
        descriptors.push(component.descriptor);
    }
    (descriptors, behaviors)
}


/// Instance `runner` is a runner whose first import is bound to a calculator
/// with the operands `lhs` and `rhs`, whose first import is bound to an
/// adder: a chain of three nested calls.
pub open spec fn is_pipeline(root: RootModel, runner: int, lhs: i32, rhs: i32) -> bool {
    &&& root.wf()
    &&& 0 <= runner < root.behaviors.len()
    &&& root.behaviors[runner] == Behavior::Runner
    &&& root.has_import(runner, 0)
    &&& root.behaviors[root.graph.bindings[runner][0]] == (Behavior::Calculator { lhs, rhs })
    &&& root.has_import(root.graph.bindings[runner][0], 0)
    &&& root.behaviors[root.graph.bindings[root.graph.bindings[runner][0]][0]] == Behavior::Adder
}

/// What the chain of three returns: the sum of the operands, a boundary
/// fault where the adder overflows, and a contract violation where the sum
/// is negative and so no value of the unsigned result type.
pub open spec fn pipeline_outcome(lhs: i32, rhs: i32) -> Result<u32, CallError> {
    match add_outcome(lhs, rhs) {
        Ok(sum) => if sum >= 0 {
            Ok(sum as u32)
        } else {
            Err(CallError::ContractViolation)
        },
        Err(e) => Err(e),
    }
}

/// On an adder, `add` is the adder's sum or its fault.
pub proof fn lemma_adder_outcome(root: RootModel, adder: int, a: i32, b: i32)
    requires
        root.wf(),
        0 <= adder < root.behaviors.len(),
        root.behaviors[adder] == Behavior::Adder,
    ensures
        sum_outcome(root, adder, a, b) == add_outcome(a, b),
        outcome(root, adder, Operation::Add, operand_wires(a, b)) == match add_outcome(a, b) {
            Ok(sum) => Ok(ValueModel::S32(sum)),
            Err(e) => Err(e),
        },
{
    let wires = operand_wires(a, b);
    let arguments = seq![ValueModel::S32(a), ValueModel::S32(b)];
    assert(lifted(wires[0], Operation::Add.params()[0]) == Ok::<ValueModel, CallError>(
        ValueModel::S32(a),
    ));
    assert(lifted(wires[1], Operation::Add.params()[1]) == Ok::<ValueModel, CallError>(
        ValueModel::S32(b),
    ));
    assert(lifted_all(wires, Operation::Add.params())->Ok_0 =~= arguments);
}

/// A text lowered by the caller is the same text when the callee lifts it.
pub proof fn lemma_text_arrives(text: Seq<char>)
    ensures
        lifted_all(text_wires(text), Operation::EvalExpression.params()) == Ok::<
            Seq<ValueModel>,
            CallError,
        >(seq![ValueModel::Text(text)]),
        seq![ValueModel::Text(text)].map_values(|v: ValueModel| lowered(v)) == text_wires(text),
{
    crate::marshal::lemma_lift_lower(ValueModel::Text(text));
    let wires = text_wires(text);
    assert(lifted(wires[0], Operation::EvalExpression.params()[0]) == Ok::<ValueModel, CallError>(
        ValueModel::Text(text),
    ));
    assert(lifted_all(wires, Operation::EvalExpression.params())->Ok_0 =~= seq![
        ValueModel::Text(text),
    ]);
    assert(seq![ValueModel::Text(text)].map_values(|v: ValueModel| lowered(v)) =~= wires);
}

/// A failure of a nested call is the failure of the call that made it: an
/// instance that calls its import and gets a failure back hands on that very
/// failure, whatever the arguments were.
pub proof fn lemma_failure_propagates(
    root: RootModel,
    target: int,
    wires: Seq<WireModel>,
    e: CallError,
)
    requires
        root.wf(),
        0 <= target < root.behaviors.len(),
        root.has_import(target, 0),
        lifted_all(wires, Operation::EvalExpression.params()) is Ok,
        match root.behaviors[target] {
            Behavior::Adder => false,
            Behavior::Calculator { lhs, rhs } => outcome(
                root,
                root.graph.bindings[target][0],
                Operation::Add,
                operand_wires(lhs, rhs),
            ) == Err::<ValueModel, CallError>(e),
            Behavior::Runner => outcome(
                root,
                root.graph.bindings[target][0],
                Operation::EvalExpression,
                lifted_all(wires, Operation::EvalExpression.params())->Ok_0.map_values(
                    |v: ValueModel| lowered(v),
                ),
            ) == Err::<ValueModel, CallError>(e),
        },
    ensures
        outcome(root, target, Operation::EvalExpression, wires) == Err::<ValueModel, CallError>(e),
{
}

/// The chain of three returns the sum of the calculator's operands for
/// every text.
pub proof fn lemma_pipeline_outcome(
    root: RootModel,
    runner: int,
    lhs: i32,
    rhs: i32,
    text: Seq<char>,
)
    requires
        is_pipeline(root, runner, lhs, rhs),
    ensures
        eval_outcome(root, runner, text) == pipeline_outcome(lhs, rhs),
{
    let calculator = root.graph.bindings[runner][0];
    let adder = root.graph.bindings[calculator][0];
    lemma_text_arrives(text);
    lemma_adder_outcome(root, adder, lhs, rhs);
    let inner = outcome(root, calculator, Operation::EvalExpression, text_wires(text));
    assert(inner == match add_outcome(lhs, rhs) {
        Ok(sum) => if sum >= 0 {
            Ok(ValueModel::U32(sum as u32))
        } else {
            Err(CallError::ContractViolation)
        },
        Err(e) => Err(e),
    });
    assert(outcome(root, runner, Operation::EvalExpression, text_wires(text)) == inner);
}

/// Every text is evaluated: where the sum of the operands is a value of the
/// unsigned result type, the chain of three returns it for the empty text,
/// for text that is no expression and for text of any alphabet alike, and
/// never fails.
pub proof fn lemma_every_text_evaluates(
    root: RootModel,
    runner: int,
    lhs: i32,
    rhs: i32,
    text: Seq<char>,
)
    requires
        is_pipeline(root, runner, lhs, rhs),
        0 <= lhs + rhs <= i32::MAX,
    ensures
        eval_outcome(root, runner, text) == Ok::<u32, CallError>((lhs + rhs) as u32),
{
    lemma_pipeline_outcome(root, runner, lhs, rhs, text);
}

/// A fault of the adder at the end of the chain of three is the outcome of
/// the call at its head: the caller sees the fault, not a number.
pub proof fn lemma_leaf_fault_reaches_caller(
    root: RootModel,
    runner: int,
    lhs: i32,
    rhs: i32,
    text: Seq<char>,
)
    requires
        is_pipeline(root, runner, lhs, rhs),
        add_outcome(lhs, rhs) is Err,
    ensures
        eval_outcome(root, runner, text) == Err::<u32, CallError>(CallError::BoundaryFault),
{
    lemma_pipeline_outcome(root, runner, lhs, rhs, text);
}

} // verus!
