//! The composition descriptor: what every component exports and imports.

use vstd::prelude::*;

verus! {

/// One import of a component: the interface it needs and, where the
/// descriptor says so, the component that is to provide it.
#[derive(Debug, Clone, PartialEq, Eq)]
pub struct ImportDescriptor {
    /// The name of the imported interface.
    pub interface_name: String,
    /// The component that the import is to be resolved from. `None` leaves the
    /// choice to the composition root, which then accepts the import only if
    /// one component alone exports the interface.
    pub resolved_from: Option<String>,
}

/// One component of a composition: its identifier, the interfaces it exports
/// and the interfaces it imports. A capability of the host is described like
/// any other component, as one without imports.
#[derive(Debug, Clone, PartialEq, Eq)]
pub struct ComponentDescriptor {
    pub component_id: String,
    pub exports: Vec<String>,
    pub imports: Vec<ImportDescriptor>,
}

/// The mathematical content of an [`ImportDescriptor`].
pub struct ImportModel {
    pub interface_name: Seq<char>,
    pub resolved_from: Option<Seq<char>>,
}

/// The mathematical content of a [`ComponentDescriptor`].
pub struct ComponentModel {
    pub component_id: Seq<char>,
    pub exports: Seq<Seq<char>>,
    pub imports: Seq<ImportModel>,
}

impl View for ImportDescriptor {
    type V = ImportModel;

    open spec fn view(&self) -> ImportModel {
        ImportModel {
            interface_name: self.interface_name@,
            resolved_from: match self.resolved_from {
                Some(id) => Some(id@),
                None => None,
            },
        }
    }
}

impl View for ComponentDescriptor {
    type V = ComponentModel;

    open spec fn view(&self) -> ComponentModel {
        ComponentModel {
            component_id: self.component_id@,
            exports: self.exports@.map_values(|name: String| name@),
            imports: self.imports@.map_values(|import: ImportDescriptor| import@),
        }
    }
}

/// The contents of a list of component descriptors.
pub open spec fn descriptor_model(descriptors: Seq<ComponentDescriptor>) -> Seq<ComponentModel> {
    descriptors.map_values(|d: ComponentDescriptor| d@)
}

impl ImportDescriptor {
    /// An import of `interface_name` that is to be resolved from the component
    /// `component_id`.
    pub fn from_component(interface_name: &str, component_id: &str) -> (import: ImportDescriptor)
        ensures
            import@ == (ImportModel {
                interface_name: interface_name@,
                resolved_from: Some(component_id@),
            }),
    {
        ImportDescriptor {
            interface_name: interface_name.to_owned(),
            resolved_from: Some(component_id.to_owned()),
        }
    }

    /// An import of `interface_name` that names no component: it is resolved
    /// from whichever component exports the interface, if one alone does.
    pub fn from_any(interface_name: &str) -> (import: ImportDescriptor)
        ensures
            import@ == (ImportModel { interface_name: interface_name@, resolved_from: None }),
    {
        ImportDescriptor { interface_name: interface_name.to_owned(), resolved_from: None }
    }
}

impl ComponentDescriptor {
    /// A component that exports nothing and imports nothing.
    pub fn new(component_id: &str) -> (d: ComponentDescriptor)
        ensures
            d@ == (ComponentModel {
                component_id: component_id@,
                exports: Seq::empty(),
                imports: Seq::empty(),
            }),
    {
        let d = ComponentDescriptor {
            component_id: component_id.to_owned(),
            exports: Vec::new(),
            imports: Vec::new(),
        };
        assert(d@.exports =~= Seq::empty());
        assert(d@.imports =~= Seq::empty());
        d
    }

    /// The same component with one more export, after those it has.
    pub fn with_export(self, interface_name: &str) -> (d: ComponentDescriptor)
        ensures
            d@ == (ComponentModel { exports: self@.exports.push(interface_name@), ..self@ }),
    {
        let mut d = self;
        d.exports.push(interface_name.to_owned());
        assert(d@.exports =~= self@.exports.push(interface_name@));
        d
    }

    /// The same component with one more import, after those it has.
    pub fn with_import(self, import: ImportDescriptor) -> (d: ComponentDescriptor)
        ensures
            d@ == (ComponentModel { imports: self@.imports.push(import@), ..self@ }),
    {
        let mut d = self;
        d.imports.push(import);
        assert(d@.imports =~= self@.imports.push(import@));
        d
    }
}

} // verus!
