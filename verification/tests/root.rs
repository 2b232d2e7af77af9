use calculator::contract::{Operation, Value};
use calculator::descriptor::{ComponentDescriptor, ImportDescriptor};
use calculator::fault::{CallError, ConfigurationError};
use calculator::marshal::Wire;
use calculator::root::{Behavior, Component, CompositionRoot};

fn adder() -> Component {
    Component {
        descriptor: ComponentDescriptor::new("adder").with_export("docs:adder/add"),
        behavior: Behavior::Adder,
    }
}

fn calculator(lhs: i32, rhs: i32) -> Component {
    Component {
        descriptor: ComponentDescriptor::new("calculator")
            .with_export("docs:calculator/calculate")
            .with_import(ImportDescriptor::from_component("docs:adder/add", "adder")),
        behavior: Behavior::Calculator { lhs, rhs },
    }
}

fn runner() -> Component {
    Component {
        descriptor: ComponentDescriptor::new("runner")
            .with_export("app:myapp/calculate")
            .with_import(ImportDescriptor::from_component(
                "docs:calculator/calculate",
                "calculator",
            )),
        behavior: Behavior::Runner,
    }
}

fn chain(lhs: i32, rhs: i32) -> CompositionRoot {
    CompositionRoot::instantiate(vec![adder(), calculator(lhs, rhs), runner()]).unwrap()
}

#[test]
fn the_chain_of_three_returns_three() {
    let root: CompositionRoot = chain(1, 2);
    assert_eq!(root.len(), 3);
    assert_eq!(root.eval_expression(2, "1 + 2"), Ok(3));
    assert_eq!(root.eval_expression(1, "1 + 2"), Ok(3));
    assert_eq!(root.add(0, 1, 2), Ok(3));
}

#[test]
fn every_text_is_evaluated() {
    let root: CompositionRoot = chain(1, 2);
    let texts: Vec<&str> = vec![
        "",
        " ",
        "1 + 2",
        "40 + 2",
        "not an expression",
        "1 +",
        "\u{0}",
        "a\u{0}b",
        "\u{1}\u{0}\u{7f}",
        "数式",
        "∑ 1..n",
        "😀 + 😀",
        "é",
    ];
    for text in texts {
        assert_eq!(root.eval_expression(2, text), Ok(3));
    }
    let long: String = "1 + ".repeat(10_000);
    assert_eq!(root.eval_expression(2, long.as_str()), Ok(3));
}

#[test]
fn the_sum_of_the_operands_comes_back_up_the_chain() {
    assert_eq!(chain(0, 0).eval_expression(2, "x"), Ok(0));
    assert_eq!(chain(40, 2).eval_expression(2, "x"), Ok(42));
    assert_eq!(chain(-5, 12).eval_expression(2, "x"), Ok(7));
    assert_eq!(chain(i32::MAX, 0).eval_expression(2, "x"), Ok(2147483647));
    assert_eq!(chain(i32::MAX - 1, 1).eval_expression(2, "x"), Ok(2147483647));
}

#[test]
fn a_fault_of_the_adder_reaches_the_caller_of_the_runner() {
    let above: CompositionRoot = chain(i32::MAX, 1);
    assert_eq!(above.add(0, i32::MAX, 1), Err(CallError::BoundaryFault));
    assert_eq!(above.eval_expression(1, "1 + 2"), Err(CallError::BoundaryFault));
    assert_eq!(above.eval_expression(2, "1 + 2"), Err(CallError::BoundaryFault));
    let below: CompositionRoot = chain(i32::MIN, -1);
    assert_eq!(below.eval_expression(2, "1 + 2"), Err(CallError::BoundaryFault));
    assert_eq!(below.eval_expression(2, ""), Err(CallError::BoundaryFault));
}

#[test]
fn a_negative_sum_is_no_unsigned_result() {
    let root: CompositionRoot = chain(-1, -2);
    assert_eq!(root.add(0, -1, -2), Ok(-3));
    assert_eq!(root.eval_expression(1, "1 + 2"), Err(CallError::ContractViolation));
    assert_eq!(root.eval_expression(2, "1 + 2"), Err(CallError::ContractViolation));
    assert_eq!(chain(0, -1).eval_expression(2, ""), Err(CallError::ContractViolation));
    assert_eq!(chain(i32::MIN, 0).eval_expression(2, ""), Err(CallError::ContractViolation));
}

#[test]
fn add_on_the_adder_follows_the_overflow_policy() {
    let root: CompositionRoot = chain(1, 2);
    assert_eq!(root.add(0, 20, 22), Ok(42));
    assert_eq!(root.add(0, i32::MIN, i32::MAX), Ok(-1));
    assert_eq!(root.add(0, i32::MAX, 1), Err(CallError::BoundaryFault));
    assert_eq!(root.add(0, i32::MIN, -1), Err(CallError::BoundaryFault));
}

#[test]
fn invoke_lifts_the_result_to_a_value() {
    let root: CompositionRoot = chain(1, 2);
    let operands: Vec<Wire> = vec![Wire::Word(5), Wire::Word(-7)];
    assert_eq!(root.invoke(0, Operation::Add, &operands), Ok(Value::S32(-2)));
    let text: Vec<Wire> = vec![Wire::Bytes(vec![49, 32, 43, 32, 50])];
    assert_eq!(root.invoke(2, Operation::EvalExpression, &text), Ok(Value::U32(3)));
    assert_eq!(root.invoke(1, Operation::EvalExpression, &text), Ok(Value::U32(3)));
}

#[test]
fn malformed_text_is_rejected_at_the_boundary() {
    let root: CompositionRoot = chain(1, 2);
    let malformed: Vec<Wire> = vec![Wire::Bytes(vec![0xFF, 0xFE])];
    assert_eq!(
        root.invoke(2, Operation::EvalExpression, &malformed),
        Err(CallError::ContractViolation)
    );
    let truncated: Vec<Wire> = vec![Wire::Bytes(vec![0xE2, 0x82])];
    assert_eq!(
        root.invoke(1, Operation::EvalExpression, &truncated),
        Err(CallError::ContractViolation)
    );
}

#[test]
fn arguments_that_miss_the_signature_are_rejected() {
    let root: CompositionRoot = chain(1, 2);
    let none: Vec<Wire> = Vec::new();
    let one: Vec<Wire> = vec![Wire::Word(1)];
    let three: Vec<Wire> = vec![Wire::Word(1), Wire::Word(2), Wire::Word(3)];
    let wide: Vec<Wire> = vec![Wire::Word(1), Wire::Word(2147483648)];
    let text: Vec<Wire> = vec![Wire::Bytes(vec![49]), Wire::Word(2)];
    assert_eq!(root.invoke(0, Operation::Add, &none), Err(CallError::ContractViolation));
    assert_eq!(root.invoke(0, Operation::Add, &one), Err(CallError::ContractViolation));
    assert_eq!(root.invoke(0, Operation::Add, &three), Err(CallError::ContractViolation));
    assert_eq!(root.invoke(0, Operation::Add, &wide), Err(CallError::ContractViolation));
    assert_eq!(root.invoke(0, Operation::Add, &text), Err(CallError::ContractViolation));
    assert_eq!(root.invoke(2, Operation::EvalExpression, &none), Err(CallError::ContractViolation));
    assert_eq!(root.invoke(2, Operation::EvalExpression, &one), Err(CallError::ContractViolation));
}

#[test]
fn an_operation_that_the_instance_does_not_implement_is_rejected() {
    let root: CompositionRoot = chain(1, 2);
    assert_eq!(root.eval_expression(0, "1 + 2"), Err(CallError::ContractViolation));
    assert_eq!(root.add(1, 1, 2), Err(CallError::ContractViolation));
    assert_eq!(root.add(2, 1, 2), Err(CallError::ContractViolation));
}

#[test]
fn a_call_to_no_instance_is_rejected() {
    let root: CompositionRoot = chain(1, 2);
    assert_eq!(root.eval_expression(3, "1 + 2"), Err(CallError::ContractViolation));
    assert_eq!(root.add(usize::MAX, 1, 2), Err(CallError::ContractViolation));
    let empty: CompositionRoot = CompositionRoot::instantiate(Vec::new()).unwrap();
    assert_eq!(empty.len(), 0);
    assert_eq!(empty.eval_expression(0, ""), Err(CallError::ContractViolation));
}

#[test]
fn an_instance_without_the_import_it_calls_faults() {
    let lonely_calculator: Component = Component {
        descriptor: ComponentDescriptor::new("calculator").with_export("docs:calculator/calculate"),
        behavior: Behavior::Calculator { lhs: 1, rhs: 2 },
    };
    let lonely_runner: Component = Component {
        descriptor: ComponentDescriptor::new("runner").with_export("app:myapp/calculate"),
        behavior: Behavior::Runner,
    };
    let root: CompositionRoot =
        CompositionRoot::instantiate(vec![lonely_calculator, lonely_runner]).unwrap();
    assert_eq!(root.eval_expression(0, "1 + 2"), Err(CallError::BoundaryFault));
    assert_eq!(root.eval_expression(1, "1 + 2"), Err(CallError::BoundaryFault));
}

#[test]
fn a_runner_bound_to_an_adder_gets_a_contract_violation() {
    let miswired: Component = Component {
        descriptor: ComponentDescriptor::new("runner")
            .with_export("app:myapp/calculate")
            .with_import(ImportDescriptor::from_component("docs:adder/add", "adder")),
        behavior: Behavior::Runner,
    };
    let root: CompositionRoot = CompositionRoot::instantiate(vec![adder(), miswired]).unwrap();
    assert_eq!(root.eval_expression(1, "1 + 2"), Err(CallError::ContractViolation));
}

#[test]
fn a_chain_of_runners_is_as_deep_as_the_descriptor() {
    let mut components: Vec<Component> = vec![adder(), calculator(20, 22)];
    let mut provider: String = String::from("calculator");
    let mut interface: String = String::from("docs:calculator/calculate");
    for depth in 0..50 {
        let id: String = format!("runner{}", depth);
        let export: String = format!("app:runner{}/calculate", depth);
        components.push(Component {
            descriptor: ComponentDescriptor::new(id.as_str())
                .with_export(export.as_str())
                .with_import(ImportDescriptor::from_component(
                    interface.as_str(),
                    provider.as_str(),
                )),
            behavior: Behavior::Runner,
        });
        provider = id;
        interface = export;
    }
    let root: CompositionRoot = CompositionRoot::instantiate(components).unwrap();
    assert_eq!(root.len(), 52);
    assert_eq!(root.eval_expression(51, "1 + 2"), Ok(42));
    assert_eq!(root.eval_expression(2, "1 + 2"), Ok(42));
}

#[test]
fn the_order_of_the_descriptor_does_not_change_the_result() {
    let root: CompositionRoot =
        CompositionRoot::instantiate(vec![runner(), calculator(1, 2), adder()]).unwrap();
    assert_eq!(root.eval_expression(0, "1 + 2"), Ok(3));
    assert_eq!(root.graph().instantiation_order(), vec![2, 1, 0]);
    assert_eq!(root.graph().teardown_order(), vec![0, 1, 2]);
    assert_eq!(root.graph().provider(0, 0), Some(1));
    assert_eq!(root.graph().provider(1, 0), Some(2));
}

#[test]
fn a_descriptor_that_cannot_be_composed_yields_no_root() {
    let unresolved: Option<ConfigurationError> =
        CompositionRoot::instantiate(vec![calculator(1, 2), runner()]).err();
    assert_eq!(
        unresolved,
        Some(ConfigurationError::UnresolvedImport { component: 0, import: 0 })
    );
    let twice: Component = Component {
        descriptor: ComponentDescriptor::new("adder")
            .with_export("docs:adder/add")
            .with_export("docs:adder/add"),
        behavior: Behavior::Adder,
    };
    assert_eq!(
        CompositionRoot::instantiate(vec![twice]).err(),
        Some(ConfigurationError::DuplicateExport { component: 0, export: 1 })
    );
    let own: Component = Component {
        descriptor: ComponentDescriptor::new("runner")
            .with_export("app:myapp/calculate")
            .with_import(ImportDescriptor::from_component("app:myapp/calculate", "runner")),
        behavior: Behavior::Runner,
    };
    assert_eq!(
        CompositionRoot::instantiate(vec![own]).err(),
        Some(ConfigurationError::CyclicDependency)
    );
    let any: Component = Component {
        descriptor: ComponentDescriptor::new("calculator")
            .with_import(ImportDescriptor::from_any("docs:adder/add")),
        behavior: Behavior::Calculator { lhs: 1, rhs: 2 },
    };
    let mut other: Component = adder();
    other.descriptor.component_id = String::from("other");
    assert_eq!(
        CompositionRoot::instantiate(vec![adder(), other, any]).err(),
        Some(ConfigurationError::ExportCollision { component: 2, import: 0 })
    );
}

#[test]
fn teardown_reverses_the_order_of_instantiation() {
    assert_eq!(chain(1, 2).teardown(), vec![2, 1, 0]);
    let reversed: CompositionRoot =
        CompositionRoot::instantiate(vec![runner(), calculator(1, 2), adder()]).unwrap();
    assert_eq!(reversed.teardown(), vec![0, 1, 2]);
    let empty: CompositionRoot = CompositionRoot::instantiate(Vec::new()).unwrap();
    assert_eq!(empty.teardown(), Vec::<usize>::new());
}
