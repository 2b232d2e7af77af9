//! Import resolution: binding every import to the one export that satisfies
//! it.
//!
//! The exports of all components form a registry keyed by interface name. An
//! import is looked up by the name of its interface, among the exports of the
//! component it names or, where it names none, among those of all components.
//! It is bound when exactly one component offers the interface. It fails when
//! none does, and when more than one does.

use vstd::prelude::*;
use crate::dependency::{table_model, table_wf};
use crate::descriptor::{
    ComponentDescriptor,
    ComponentModel,
    ImportDescriptor,
    ImportModel,
    descriptor_model,
};
use crate::fault::ConfigurationError;

verus! {

/// Export `j` of component `c` names the interface of an earlier export of
/// the same component.
pub open spec fn repeats_export(m: Seq<ComponentModel>, c: int, j: int) -> bool {
    exists|i: int| 0 <= i < j && #[trigger] m[c].exports[i] == m[c].exports[j]
}

/// `(c, j)` names an export of the descriptor.
pub open spec fn is_export_slot(m: Seq<ComponentModel>, c: int, j: int) -> bool {
    0 <= c < m.len() && 0 <= j < m[c].exports.len()
}

/// `(c, s)` names an import of the descriptor.
pub open spec fn is_import_slot(m: Seq<ComponentModel>, c: int, s: int) -> bool {
    0 <= c < m.len() && 0 <= s < m[c].imports.len()
}

/// Slot `(c1, s1)` stands before slot `(c2, s2)` in the descriptor.
pub open spec fn slot_before(c1: int, s1: int, c2: int, s2: int) -> bool {
    c1 < c2 || (c1 == c2 && s1 < s2)
}

/// No component exports an interface twice.
pub open spec fn exports_distinct(m: Seq<ComponentModel>) -> bool {
    forall|c: int, j: int| is_export_slot(m, c, j) ==> !#[trigger] repeats_export(m, c, j)
}

/// `(c, j)` is the first export of the descriptor that repeats an earlier
/// export of its component.
pub open spec fn is_first_repeated_export(m: Seq<ComponentModel>, c: int, j: int) -> bool {
    &&& is_export_slot(m, c, j)
    &&& repeats_export(m, c, j)
    &&& forall|c2: int, j2: int|
        is_export_slot(m, c2, j2) && slot_before(c2, j2, c, j) ==> !#[trigger] repeats_export(
            m,
            c2,
            j2,
        )
}

/// Component `p` offers what the import asks for: it exports the interface
/// and, where the import names a component, it is that component.
pub open spec fn offers(m: Seq<ComponentModel>, p: int, import: ImportModel) -> bool {
    &&& 0 <= p < m.len()
    &&& m[p].exports.contains(import.interface_name)
    &&& match import.resolved_from {
        Some(id) => m[p].component_id == id,
        None => true,
    }
}

/// No component offers what the import asks for.
pub open spec fn is_unresolved(m: Seq<ComponentModel>, import: ImportModel) -> bool {
    forall|p: int| !#[trigger] offers(m, p, import)
}

/// Two components offer what the import asks for.
pub open spec fn is_contested(m: Seq<ComponentModel>, import: ImportModel) -> bool {
    exists|p: int, q: int|
        p != q && #[trigger] offers(m, p, import) && #[trigger] offers(m, q, import)
}

/// Component `p`, and no other, offers what the import asks for.
pub open spec fn resolves_to(m: Seq<ComponentModel>, import: ImportModel, p: int) -> bool {
    &&& offers(m, p, import)
    &&& forall|q: int| #[trigger] offers(m, q, import) ==> q == p
}

/// Exactly one component offers what the import asks for.
pub open spec fn is_resolved(m: Seq<ComponentModel>, import: ImportModel) -> bool {
    exists|p: int| resolves_to(m, import, p)
}

/// The component that a resolved import is bound to.
pub open spec fn provider_of(m: Seq<ComponentModel>, import: ImportModel) -> int {
    choose|p: int| offers(m, p, import)
}

/// Every import of the descriptor is resolved.
pub open spec fn imports_resolved(m: Seq<ComponentModel>) -> bool {
    forall|c: int, s: int| is_import_slot(m, c, s) ==> is_resolved(m, #[trigger] m[c].imports[s])
}

/// `(c, s)` is the first import of the descriptor that is not resolved.
pub open spec fn is_first_failing_import(m: Seq<ComponentModel>, c: int, s: int) -> bool {
    &&& is_import_slot(m, c, s)
    &&& !is_resolved(m, m[c].imports[s])
    &&& forall|c2: int, s2: int|
        is_import_slot(m, c2, s2) && slot_before(c2, s2, c, s) ==> is_resolved(
            m,
            #[trigger] m[c2].imports[s2],
        )
}

/// The binding table of a descriptor: for every component and every import
/// of it, the component that the import is bound to.
pub open spec fn bindings_of(m: Seq<ComponentModel>) -> Seq<Seq<int>> {
    Seq::new(
        m.len(),
        |c: int| Seq::new(m[c].imports.len(), |s: int| provider_of(m, m[c].imports[s])),
    )
}

/// An import is unresolved, contested or resolved, and one of them only.
pub proof fn lemma_resolution_cases(m: Seq<ComponentModel>, import: ImportModel)
    ensures
        is_resolved(m, import) <==> !is_unresolved(m, import) && !is_contested(m, import),
        !(is_unresolved(m, import) && is_contested(m, import)),
{
    if is_resolved(m, import) {
        let p = choose|p: int| resolves_to(m, import, p);
        assert(offers(m, p, import));
    }
    if !is_unresolved(m, import) && !is_contested(m, import) {
        let p = choose|p: int| offers(m, p, import);
        assert(resolves_to(m, import, p));
    }
}

/// A resolved import is bound to the one component that offers it.
pub proof fn lemma_provider_of(m: Seq<ComponentModel>, import: ImportModel, p: int)
    requires
        resolves_to(m, import, p),
    ensures
        provider_of(m, import) == p,
{
    assert(offers(m, provider_of(m, import), import));
}

/// The bindings of a descriptor whose imports are all resolved name
/// components of the descriptor.
pub proof fn lemma_bindings_wf(m: Seq<ComponentModel>)
    requires
        imports_resolved(m),
    ensures
        table_wf(bindings_of(m)),
{
    let b = bindings_of(m);
    assert forall|c: int, s: int| 0 <= c < b.len() && 0 <= s < b[c].len() implies 0
        <= #[trigger] b[c][s] < b.len() by {
        let import = m[c].imports[s];
        assert(is_resolved(m, import));
        let p = choose|p: int| resolves_to(m, import, p);
        lemma_provider_of(m, import, p);
    }
}

/// True when the component exports the interface `name`.
fn exports_interface(component: &ComponentDescriptor, name: &String) -> (r: bool)
    ensures
        r == component@.exports.contains(name@),
{
    let mut i: usize = 0;
    while i < component.exports.len()
        invariant
            i <= component.exports.len(),
            forall|j: int| 0 <= j < i ==> component@.exports[j] != name@,
        decreases component.exports.len() - i,
    {
        if component.exports[i] == *name {
            assert(component@.exports[i as int] == name@);
            return true;
        }
        i += 1;
    }
    false
}

/// True when the component offers what the import asks for.
fn offers_import(component: &ComponentDescriptor, import: &ImportDescriptor) -> (r: bool)
    ensures
        r == (component@.exports.contains(import@.interface_name) && match import@.resolved_from {
            Some(id) => component@.component_id == id,
            None => true,
        }),
{
    let named = match &import.resolved_from {
        Some(id) => component.component_id == *id,
        None => true,
    };
    named && exports_interface(component, &import.interface_name)
}

/// What the lookup of one import found.
#[derive(Debug, Clone, Copy, PartialEq, Eq, Structural)]
pub enum Resolution {
    /// No component offers the interface.
    Unresolved,
    /// More than one component offers the interface.
    Contested,
    /// This component, and no other, offers the interface.
    Provider(usize),
}

/// Looks one import up among the exports of all components.
pub fn resolve_import(descriptors: &Vec<ComponentDescriptor>, import: &ImportDescriptor) -> (r:
    Resolution)
    ensures
        match r {
            Resolution::Unresolved => is_unresolved(descriptor_model(descriptors@), import@),
            Resolution::Contested => is_contested(descriptor_model(descriptors@), import@),
            Resolution::Provider(p) => resolves_to(
                descriptor_model(descriptors@),
                import@,
                p as int,
            ),
        },
{
    let ghost m = descriptor_model(descriptors@);
    let mut found: Option<usize> = None;
    let mut p: usize = 0;
    while p < descriptors.len()
        invariant
            p <= descriptors.len(),
            m == descriptor_model(descriptors@),
            match found {
                Some(f) => f < p && offers(m, f as int, import@) && forall|q: int|
                    0 <= q < p && #[trigger] offers(m, q, import@) ==> q == f,
                None => forall|q: int| 0 <= q < p ==> !#[trigger] offers(m, q, import@),
            },
        decreases descriptors.len() - p,
    {
        if offers_import(&descriptors[p], import) {
            assert(offers(m, p as int, import@));
            match found {
                Some(f) => {
                    return Resolution::Contested;
                },
                None => {
                    found = Some(p);
                },
            }
        }
        p += 1;
    }
    match found {
        Some(f) => Resolution::Provider(f),
        None => Resolution::Unresolved,
    }
}

/// Looks for an export that repeats an earlier export of its component, and
/// returns the first one as the pair of the component's number and the
/// export's number.
pub fn find_repeated_export(descriptors: &Vec<ComponentDescriptor>) -> (r: Option<(usize, usize)>)
    ensures
        match r {
            Some((c, j)) => is_first_repeated_export(
                descriptor_model(descriptors@),
                c as int,
                j as int,
            ),
            None => exports_distinct(descriptor_model(descriptors@)),
        },
{
    let ghost m = descriptor_model(descriptors@);
    let mut c: usize = 0;
    while c < descriptors.len()
        invariant
            c <= descriptors.len(),
            m == descriptor_model(descriptors@),
            forall|c2: int, j2: int|
                is_export_slot(m, c2, j2) && c2 < c ==> !#[trigger] repeats_export(m, c2, j2),
        decreases descriptors.len() - c,
    {
        let exports = &descriptors[c].exports;
        let mut j: usize = 0;
        while j < exports.len()
            invariant
                c < descriptors.len(),
                j <= exports.len(),
                m == descriptor_model(descriptors@),
                exports == descriptors[c as int].exports,
                forall|c2: int, j2: int|
                    is_export_slot(m, c2, j2) && slot_before(c2, j2, c as int, j as int)
                        ==> !#[trigger] repeats_export(m, c2, j2),
            decreases exports.len() - j,
        {
            let mut i: usize = 0;
            while i < j
                invariant
                    c < descriptors.len(),
                    i <= j < exports.len(),
                    m == descriptor_model(descriptors@),
                    exports == descriptors[c as int].exports,
                    forall|c2: int, j2: int|
                        is_export_slot(m, c2, j2) && slot_before(c2, j2, c as int, j as int)
                            ==> !#[trigger] repeats_export(m, c2, j2),
                    forall|i2: int|
                        0 <= i2 < i ==> #[trigger] m[c as int].exports[i2]
                            != m[c as int].exports[j as int],
                decreases j - i,
            {
                if exports[i] == exports[j] {
                    assert(m[c as int].exports[i as int] == m[c as int].exports[j as int]);
                    return Some((c, j));
                }
                i += 1;
            }
            j += 1;
        }
        c += 1;
    }
    None
}

/// True when `e` reports the first import of the descriptor that is not
/// resolved, and says rightly whether nothing or too much was found for it.
pub open spec fn is_import_failure(m: Seq<ComponentModel>, e: ConfigurationError) -> bool {
    match e {
        ConfigurationError::UnresolvedImport { component, import } => {
            &&& is_first_failing_import(m, component as int, import as int)
            &&& is_unresolved(m, m[component as int].imports[import as int])
        },
        ConfigurationError::ExportCollision { component, import } => {
            &&& is_first_failing_import(m, component as int, import as int)
            &&& is_contested(m, m[component as int].imports[import as int])
        },
        _ => false,
    }
}

/// Resolves every import of the descriptor, in the order of the descriptor,
/// and returns the binding table. Stops at the first import that is not
/// resolved.
pub fn resolve_imports(descriptors: &Vec<ComponentDescriptor>) -> (r: Result<
    Vec<Vec<usize>>,
    ConfigurationError,
>)
    ensures
        match r {
            Ok(table) => {
                &&& imports_resolved(descriptor_model(descriptors@))
                &&& table_model(table@) == bindings_of(descriptor_model(descriptors@))
            },
            Err(e) => is_import_failure(descriptor_model(descriptors@), e),
        },
{
    let ghost m = descriptor_model(descriptors@);
    let mut table: Vec<Vec<usize>> = Vec::new();
    let mut c: usize = 0;
    while c < descriptors.len()
        invariant
            c <= descriptors.len(),
            m == descriptor_model(descriptors@),
            table.len() == c,
            forall|c2: int, s2: int|
                is_import_slot(m, c2, s2) && c2 < c ==> is_resolved(
                    m,
                    #[trigger] m[c2].imports[s2],
                ),
            forall|c2: int| 0 <= c2 < c ==> (#[trigger] table[c2]).len() == m[c2].imports.len(),
            forall|c2: int, s2: int|
                0 <= c2 < c && 0 <= s2 < m[c2].imports.len() ==> #[trigger] table[c2][s2]
                    == provider_of(m, m[c2].imports[s2]),
        decreases descriptors.len() - c,
    {
        let imports = &descriptors[c].imports;
        let mut row: Vec<usize> = Vec::new();
        let mut s: usize = 0;
        while s < imports.len()
            invariant
                c < descriptors.len(),
                s <= imports.len(),
                m == descriptor_model(descriptors@),
                imports == descriptors[c as int].imports,
                row.len() == s,
                forall|c2: int, s2: int|
                    is_import_slot(m, c2, s2) && slot_before(c2, s2, c as int, s as int)
                        ==> is_resolved(m, #[trigger] m[c2].imports[s2]),
                forall|s2: int|
                    0 <= s2 < s ==> #[trigger] row[s2] == provider_of(m, m[c as int].imports[s2]),
            decreases imports.len() - s,
        {
            let ghost import = m[c as int].imports[s as int];
            proof {
                lemma_resolution_cases(m, import);
            }
            match resolve_import(descriptors, &imports[s]) {
                Resolution::Unresolved => {
                    return Err(ConfigurationError::UnresolvedImport { component: c, import: s });
                },
                Resolution::Contested => {
                    return Err(ConfigurationError::ExportCollision { component: c, import: s });
                },
                Resolution::Provider(p) => {
                    proof {
                        lemma_provider_of(m, import, p as int);
                    }
                    row.push(p);
                },
            }
            s += 1;
        }
        table.push(row);
        c += 1;
    }
    proof {
        assert forall|c2: int| 0 <= c2 < m.len() implies #[trigger] table_model(table@)[c2]
            =~= bindings_of(m)[c2] by {
        }
    }
    Ok(table)
}

} // verus!
