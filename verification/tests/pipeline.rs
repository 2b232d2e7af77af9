use calculator::fault::Failure;
use calculator::pipeline::{evaluate, pipeline_components, ADDER, CALCULATOR, RUNNER};
use calculator::root::{Behavior, Component, CompositionRoot};

#[test]
fn runner_returns_three_for_one_plus_two() {
    let result: Result<u32, Failure> = evaluate("1 + 2");
    assert_eq!(result, Ok(3));
}

#[test]
fn the_pipeline_ignores_the_expression() {
    assert_eq!(evaluate(""), Ok(3));
    assert_eq!(evaluate("2 + 2"), Ok(3));
    assert_eq!(evaluate("\u{0}"), Ok(3));
    assert_eq!(evaluate("три"), Ok(3));
}

#[test]
fn the_pipeline_has_its_three_components() {
    let components: Vec<Component> = pipeline_components();
    assert_eq!(components.len(), 3);
    assert_eq!(components[ADDER].behavior, Behavior::Adder);
    assert_eq!(components[CALCULATOR].behavior, Behavior::Calculator { lhs: 1, rhs: 2 });
    assert_eq!(components[RUNNER].behavior, Behavior::Runner);
    assert_eq!(components[ADDER].descriptor.component_id, "adder");
    assert_eq!(components[ADDER].descriptor.exports, vec![String::from("docs:adder/add")]);
    assert!(components[ADDER].descriptor.imports.is_empty());
    assert_eq!(components[CALCULATOR].descriptor.component_id, "calculator");
    assert_eq!(
        components[CALCULATOR].descriptor.exports,
        vec![String::from("docs:calculator/calculate")]
    );
    assert_eq!(components[CALCULATOR].descriptor.imports[0].interface_name, "docs:adder/add");
    assert_eq!(
        components[CALCULATOR].descriptor.imports[0].resolved_from,
        Some(String::from("adder"))
    );
    assert_eq!(components[RUNNER].descriptor.component_id, "runner");
    assert_eq!(components[RUNNER].descriptor.exports, vec![String::from("app:myapp/calculate")]);
    assert_eq!(
        components[RUNNER].descriptor.imports[0].interface_name,
        "docs:calculator/calculate"
    );
    assert_eq!(
        components[RUNNER].descriptor.imports[0].resolved_from,
        Some(String::from("calculator"))
    );
}

#[test]
fn the_pipeline_is_instantiated_leaves_first() {
    let root: CompositionRoot = CompositionRoot::instantiate(pipeline_components()).unwrap();
    assert_eq!(root.graph().instantiation_order(), vec![ADDER, CALCULATOR, RUNNER]);
    assert_eq!(root.graph().teardown_order(), vec![RUNNER, CALCULATOR, ADDER]);
    assert_eq!(root.graph().provider(RUNNER, 0), Some(CALCULATOR));
    assert_eq!(root.graph().provider(CALCULATOR, 0), Some(ADDER));
    assert_eq!(root.eval_expression(RUNNER, "1 + 2"), Ok(3));
}
