//! Composition: from a descriptor to the graph of resolved bindings.
//!
//! Composition is a one-time activity. It checks the exports, resolves every
//! import and orders the components for instantiation; the graph it returns
//! is never changed afterwards. A descriptor has one composition at most, so
//! composing it again gives the same graph.

use vstd::prelude::*;
use crate::dependency::{
    dependency_order,
    has_cycle,
    ints,
    is_cycle,
    is_first_ready_order,
    lemma_first_ready_order_unique,
    table_model,
    table_wf,
};
use crate::descriptor::{ComponentDescriptor, ComponentModel, descriptor_model};
use crate::fault::ConfigurationError;
use crate::resolve::{
    bindings_of,
    exports_distinct,
    find_repeated_export,
    imports_resolved,
    is_contested,
    is_export_slot,
    is_first_repeated_export,
    is_import_failure,
    is_import_slot,
    is_unresolved,
    lemma_bindings_wf,
    lemma_resolution_cases,
    repeats_export,
    resolve_imports,
};

verus! {

/// The resolved bindings of a composition and the order of instantiation.
#[derive(Debug)]
pub struct CompositionGraph {
    bindings: Vec<Vec<usize>>,
    order: Vec<usize>,
    rank: Vec<usize>,
}

/// The mathematical content of a [`CompositionGraph`].
pub struct GraphModel {
    /// `bindings[c][s]` is the component that import `s` of component `c` is
    /// bound to.
    pub bindings: Seq<Seq<int>>,
    /// The components in the order in which they are instantiated.
    pub order: Seq<int>,
    /// The place of every component in `order`.
    pub rank: Seq<int>,
}

impl GraphModel {
    /// Every binding names a component, and the order instantiates every
    /// component once, after all of its providers.
    pub open spec fn wf(self) -> bool {
        &&& table_wf(self.bindings)
        &&& is_first_ready_order(self.bindings, self.order, self.rank)
    }
}

impl View for CompositionGraph {
    type V = GraphModel;

    closed spec fn view(&self) -> GraphModel {
        GraphModel {
            bindings: table_model(self.bindings@),
            order: ints(self.order@),
            rank: ints(self.rank@),
        }
    }
}

impl CompositionGraph {
    /// The number of components.
    pub fn len(&self) -> (n: usize)
        ensures
            n == self@.bindings.len(),
    {
        self.bindings.len()
    }

    /// The number of imports of a component, or `None` where the graph has no
    /// such component.
    pub fn import_count(&self, component: usize) -> (r: Option<usize>)
        ensures
            r is Some <==> component < self@.bindings.len(),
            r is Some ==> r->0 == self@.bindings[component as int].len(),
    {
        if component < self.bindings.len() {
            Some(self.bindings[component].len())
        } else {
            None
        }
    }

    /// The component that import `import` of `component` is bound to, or
    /// `None` where the graph has no such import.
    pub fn provider(&self, component: usize, import: usize) -> (r: Option<usize>)
        ensures
            r is Some <==> component < self@.bindings.len() && import
                < self@.bindings[component as int].len(),
            r is Some ==> r->0 == self@.bindings[component as int][import as int],
    {
        if component < self.bindings.len() && import < self.bindings[component].len() {
            Some(self.bindings[component][import])
        } else {
            None
        }
    }

    /// The place of a component in the order of instantiation, or `None`
    /// where the graph has no such component.
    pub fn rank_of(&self, component: usize) -> (r: Option<usize>)
        ensures
            r is Some <==> component < self@.rank.len(),
            r is Some ==> r->0 == self@.rank[component as int],
    {
        if component < self.rank.len() {
            Some(self.rank[component])
        } else {
            None
        }
    }

    /// The components in the order in which they are instantiated: every
    /// component after all of its providers.
    pub fn instantiation_order(&self) -> (order: Vec<usize>)
        ensures
            ints(order@) == self@.order,
    {
        let mut order: Vec<usize> = Vec::new();
        let mut k: usize = 0;
        while k < self.order.len()
            invariant
                k <= self.order.len(),
                order.len() == k,
                forall|j: int| 0 <= j < k ==> order[j] == self.order[j],
            decreases self.order.len() - k,
        {
            order.push(self.order[k]);
            k += 1;
        }
        order
    }

    /// The components in the order in which they are torn down: the reverse
    /// of the order of instantiation, so that no instance outlives one that
    /// it is bound to.
    pub fn teardown_order(&self) -> (order: Vec<usize>)
        ensures
            ints(order@) == self@.order.reverse(),
    {
        let n = self.order.len();
        let mut order: Vec<usize> = Vec::new();
        let mut k: usize = 0;
        while k < n
            invariant
                n == self.order.len(),
                k <= n,
                order.len() == k,
                forall|j: int| 0 <= j < k ==> order[j] == self.order[n - 1 - j],
            decreases n - k,
        {
            order.push(self.order[n - 1 - k]);
            k += 1;
        }
        order
    }
}

/// The descriptor can be composed: no component exports an interface twice,
/// every import is resolved and no component depends on itself.
pub open spec fn is_composable(m: Seq<ComponentModel>) -> bool {
    &&& exports_distinct(m)
    &&& imports_resolved(m)
    &&& !has_cycle(bindings_of(m))
}

/// `g` is the composition of the descriptor: its bindings are the resolved
/// imports, and its order takes, at every step, the first component of the
/// descriptor whose providers are all instantiated.
pub open spec fn is_composition(m: Seq<ComponentModel>, g: GraphModel) -> bool {
    &&& is_composable(m)
    &&& g.bindings == bindings_of(m)
    &&& g.wf()
}

/// `e` is the reason why the descriptor cannot be composed. Exports are
/// checked first, imports second and cycles last, and of several faulty
/// exports or imports the first in the descriptor is reported.
pub open spec fn is_rejection(m: Seq<ComponentModel>, e: ConfigurationError) -> bool {
    match e {
        ConfigurationError::DuplicateExport { component, export } => is_first_repeated_export(
            m,
            component as int,
            export as int,
        ),
        ConfigurationError::CyclicDependency => {
            &&& exports_distinct(m)
            &&& imports_resolved(m)
            &&& has_cycle(bindings_of(m))
        },
        _ => exports_distinct(m) && is_import_failure(m, e),
    }
}

/// Composes the descriptor.
pub fn compose(descriptors: &Vec<ComponentDescriptor>) -> (r: Result<
    CompositionGraph,
    ConfigurationError,
>)
    ensures
        r is Ok <==> is_composable(descriptor_model(descriptors@)),
        match r {
            Ok(g) => is_composition(descriptor_model(descriptors@), g@),
            Err(e) => is_rejection(descriptor_model(descriptors@), e),
        },
{
    let ghost m = descriptor_model(descriptors@);
    match find_repeated_export(descriptors) {
        Some((c, j)) => {
            return Err(ConfigurationError::DuplicateExport { component: c, export: j });
        },
        None => {},
    }
    let table = match resolve_imports(descriptors) {
        Ok(table) => table,
        Err(e) => {
            return Err(e);
        },
    };
    proof {
        lemma_bindings_wf(m);
    }
    match dependency_order(&table) {
        Some((order, rank)) => Ok(CompositionGraph { bindings: table, order, rank }),
        None => Err(ConfigurationError::CyclicDependency),
    }
}

/// Composition is idempotent: a descriptor has one composition only, so
/// composing an unchanged descriptor again yields the same bindings in the
/// same order.
pub proof fn lemma_composition_unique(m: Seq<ComponentModel>, g1: GraphModel, g2: GraphModel)
    requires
        is_composition(m, g1),
        is_composition(m, g2),
    ensures
        g1 == g2,
{
    lemma_first_ready_order_unique(g1.bindings, g1.order, g1.rank, g2.order, g2.rank);
}

/// Rejection is deterministic: a descriptor is rejected for one reason only.
pub proof fn lemma_rejection_unique(
    m: Seq<ComponentModel>,
    e1: ConfigurationError,
    e2: ConfigurationError,
)
    requires
        is_rejection(m, e1),
        is_rejection(m, e2),
    ensures
        e1 == e2,
{
    match (e1, e2) {
        (
            ConfigurationError::UnresolvedImport { component: c1, import: s1 },
            ConfigurationError::ExportCollision { component: c2, import: s2 },
        ) => {
            lemma_resolution_cases(m, m[c1 as int].imports[s1 as int]);
        },
        (
            ConfigurationError::ExportCollision { component: c1, import: s1 },
            ConfigurationError::UnresolvedImport { component: c2, import: s2 },
        ) => {
            lemma_resolution_cases(m, m[c1 as int].imports[s1 as int]);
        },
        _ => {},
    }
}

/// A descriptor that is rejected has no composition.
pub proof fn lemma_rejection_excludes_composition(
    m: Seq<ComponentModel>,
    e: ConfigurationError,
    g: GraphModel,
)
    requires
        is_rejection(m, e),
    ensures
        !is_composition(m, g),
{
}

/// A descriptor in which a component exports an interface twice cannot be
/// composed.
pub proof fn lemma_repeated_export_rejected(m: Seq<ComponentModel>, c: int, j: int)
    requires
        is_export_slot(m, c, j),
        repeats_export(m, c, j),
    ensures
        !is_composable(m),
{
}

/// A descriptor with an import that no component offers cannot be composed.
pub proof fn lemma_unresolved_import_rejected(m: Seq<ComponentModel>, c: int, s: int)
    requires
        is_import_slot(m, c, s),
        is_unresolved(m, m[c].imports[s]),
    ensures
        !is_composable(m),
{
    lemma_resolution_cases(m, m[c].imports[s]);
}

/// A descriptor with an import that two components offer, and that does not
/// say which of them it means, cannot be composed.
pub proof fn lemma_contested_import_rejected(m: Seq<ComponentModel>, c: int, s: int)
    requires
        is_import_slot(m, c, s),
        is_contested(m, m[c].imports[s]),
    ensures
        !is_composable(m),
{
    lemma_resolution_cases(m, m[c].imports[s]);
}

/// A descriptor whose bindings lead from a component back to itself cannot be
/// composed.
pub proof fn lemma_cycle_rejected(m: Seq<ComponentModel>, chain: Seq<int>)
    requires
        is_cycle(bindings_of(m), chain),
    ensures
        !is_composable(m),
{
}

} // verus!
