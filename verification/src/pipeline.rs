//! The pipeline itself: an adder, a calculator and a runner, wired by name.
//!
//! The runner imports the calculator's `calculate` interface, the
//! calculator imports the adder's `add` interface, and the adder imports
//! nothing. The calculator is the stand-in that adds 1 and 2 whatever the
//! expression says.

use vstd::prelude::*;
use crate::compose::is_composable;
use crate::dependency::{is_dependency_order, lemma_order_excludes_cycle};
use crate::descriptor::{ComponentDescriptor, ComponentModel, ImportDescriptor, ImportModel};
use crate::fault::Failure;
use crate::resolve::{
    bindings_of,
    is_export_slot,
    is_import_slot,
    is_resolved,
    lemma_bindings_wf,
    lemma_provider_of,
    offers,
    repeats_export,
    resolves_to,
};
use crate::root::{
    Behavior,
    Component,
    CompositionRoot,
    component_behaviors,
    component_models,
    is_pipeline,
    lemma_every_text_evaluates,
};

verus! {

/// The number of the adder among the components of the pipeline.
pub const ADDER: usize = 0;

/// The number of the calculator among the components of the pipeline.
pub const CALCULATOR: usize = 1;

/// The number of the runner among the components of the pipeline.
pub const RUNNER: usize = 2;

/// The descriptor of the pipeline.
pub open spec fn pipeline_model() -> Seq<ComponentModel> {
    seq![
        ComponentModel {
            component_id: "adder"@,
            exports: seq!["docs:adder/add"@],
            imports: seq![],
        },
        ComponentModel {
            component_id: "calculator"@,
            exports: seq!["docs:calculator/calculate"@],
            imports: seq![
                ImportModel {
                    interface_name: "docs:adder/add"@,
                    resolved_from: Some("adder"@),
                },
            ],
        },
        ComponentModel {
            component_id: "runner"@,
            exports: seq!["app:myapp/calculate"@],
            imports: seq![
                ImportModel {
                    interface_name: "docs:calculator/calculate"@,
                    resolved_from: Some("calculator"@),
                },
            ],
        },
    ]
}

/// The behaviors of the pipeline.
pub open spec fn pipeline_behaviors() -> Seq<Behavior> {
    seq![Behavior::Adder, Behavior::Calculator { lhs: 1, rhs: 2 }, Behavior::Runner]
}

/// The three components of the pipeline: the adder, the calculator with the
/// operands 1 and 2, and the runner.
pub fn pipeline_components() -> (components: Vec<Component>)
    ensures
        component_models(components@) == pipeline_model(),
        component_behaviors(components@) == pipeline_behaviors(),
{
    let adder = ComponentDescriptor::new("adder").with_export("docs:adder/add");
    let calculator = ComponentDescriptor::new("calculator").with_export(
        "docs:calculator/calculate",
    ).with_import(ImportDescriptor::from_component("docs:adder/add", "adder"));
    let runner = ComponentDescriptor::new("runner").with_export("app:myapp/calculate").with_import(
        ImportDescriptor::from_component("docs:calculator/calculate", "calculator"),
    );
    let mut components: Vec<Component> = Vec::new();
    components.push(Component { descriptor: adder, behavior: Behavior::Adder });
    components.push(
        Component { descriptor: calculator, behavior: Behavior::Calculator { lhs: 1, rhs: 2 } },
    );
    components.push(Component { descriptor: runner, behavior: Behavior::Runner });
    components
}

/// The descriptor of the pipeline can be composed, and its bindings lead
/// from the runner to the calculator and from the calculator to the adder.
pub proof fn lemma_pipeline_composable()
    ensures
        is_composable(pipeline_model()),
        bindings_of(pipeline_model()) == seq![Seq::<int>::empty(), seq![0int], seq![1int]],
{
    reveal_strlit("adder");
    reveal_strlit("calculator");
    reveal_strlit("runner");
    let m = pipeline_model();
    let to_adder = m[1].imports[0];
    let to_calculator = m[2].imports[0];
    assert(m[0].exports[0] == to_adder.interface_name);
    assert(m[1].exports[0] == to_calculator.interface_name);
    assert(resolves_to(m, to_adder, 0)) by {
        assert forall|q: int| #[trigger] offers(m, q, to_adder) implies q == 0 by {
            assert(m[1].component_id.len() != to_adder.resolved_from->0.len());
            assert(m[2].component_id.len() != to_adder.resolved_from->0.len());
        }
    }
    assert(resolves_to(m, to_calculator, 1)) by {
        assert forall|q: int| #[trigger] offers(m, q, to_calculator) implies q == 1 by {
            assert(m[0].component_id.len() != to_calculator.resolved_from->0.len());
            assert(m[2].component_id.len() != to_calculator.resolved_from->0.len());
        }
    }
    lemma_provider_of(m, to_adder, 0);
    lemma_provider_of(m, to_calculator, 1);
    let b = bindings_of(m);
    assert(b[0] =~= Seq::<int>::empty());
    assert(b[1] =~= seq![0int]);
    assert(b[2] =~= seq![1int]);
    lemma_bindings_wf(m);
    let order = seq![0int, 1int, 2int];
    lemma_order_excludes_cycle(b, order, order);
}

/// Composes the pipeline and calls `eval_expression` on the runner.
///
/// The runner hands the expression to the calculator, the calculator asks
/// the adder for 1 + 2, and the sum comes back up the chain: the result is 3
/// for every expression.
pub fn evaluate(expr: &str) -> (r: Result<u32, Failure>)
    ensures
        r == Ok::<u32, Failure>(3),
{
    proof {
        lemma_pipeline_composable();
    }
    match CompositionRoot::instantiate(pipeline_components()) {
        Ok(root) => {
            proof {
                lemma_every_text_evaluates(root@, RUNNER as int, 1, 2, expr@);
            }
            match root.eval_expression(RUNNER, expr) {
                Ok(v) => Ok(v),
                Err(e) => Err(Failure::Call(e)),
            }
        },
        Err(e) => Err(Failure::Configuration(e)),
    }
}

} // verus!
