//! Lookups in the compiled class: member functions by name, the package of
//! a class reference, and its namespace.

use vstd::prelude::*;
use crate::error::TranspileError;
use crate::namespaces::{NamespaceRegistry, spec_resolve_paths, spec_resolve_prefix, text_result};
use crate::search::{lemma_first_index_is, lemma_first_index_none, spec_first_index};
use crate::syntax::{CompiledClass, FunctionDefinition, Import, ImportSpecifier};
use crate::text::{path_view, same_text};
use crate::transpiler::MxmlTranspiler;

verus! {

/// The condition that a function is called `name`.
pub open spec fn is_named(name: Seq<char>) -> spec_fn(FunctionDefinition) -> bool {
    |function: FunctionDefinition| function.name@ == name
}

/// The condition that an import brings in the single name `identifier`.
pub open spec fn imports_name(identifier: Seq<char>) -> spec_fn(Import) -> bool {
    |import: Import|
        match import.specifier {
            ImportSpecifier::Identifier(imported) => imported@ == identifier,
            _ => false,
        }
}

/// The index of the first member function called `name`.
pub open spec fn spec_get_function(class: CompiledClass, name: Seq<char>) -> Option<usize> {
    match spec_first_index(class.functions@, is_named(name)) {
        Some(i) => Some(i as usize),
        None => None,
    }
}

/// The package path of the class that `identifier` refers to: that of the
/// first import of this name, or the file's own package where there is none.
pub open spec fn spec_class_package(class: CompiledClass, identifier: Seq<char>) -> Seq<Seq<char>> {
    match spec_first_index(class.imports@, imports_name(identifier)) {
        Some(i) => path_view(class.imports@[i].package_name),
        None => path_view(class.package),
    }
}

impl<'a> MxmlTranspiler<'a> {
    /// The index of the first member function called `name`.
    pub fn get_function(&self, name: &String) -> (r: Option<usize>)
        ensures
            r == spec_get_function(*self.class, name@),
            r matches Some(i) ==> i < self.class.functions.len(),
    {
        let functions = &self.class.functions;
        let mut i: usize = 0;
        while i < functions.len()
            invariant
                i <= functions.len(),
                functions == &self.class.functions,
                forall|k: int| 0 <= k < i ==> !is_named(name@)(#[trigger] functions@[k]),
            decreases functions.len() - i,
        {
            if same_text(functions[i].name.as_str(), name.as_str()) {
                proof {
                    lemma_first_index_is(functions@, is_named(name@), i as int);
                }
                return Some(i);
            }
            i += 1;
        }
        proof {
            lemma_first_index_none(functions@, is_named(name@));
        }
        None
    }

    /// The package path of the class that `class_name` refers to.
    pub fn get_class_package(&self, class_name: &String) -> (r: &'a Vec<String>)
        ensures
            path_view(*r) == spec_class_package(*self.class, class_name@),
    {
        let imports = &self.class.imports;
        let mut i: usize = 0;
        while i < imports.len()
            invariant
                i <= imports.len(),
                imports == &self.class.imports,
                forall|k: int| 0 <= k < i ==> !imports_name(class_name@)(#[trigger] imports@[k]),
            decreases imports.len() - i,
        {
            let found = match &imports[i].specifier {
                ImportSpecifier::Identifier(imported) => same_text(
                    imported.as_str(),
                    class_name.as_str(),
                ),
                _ => false,
            };
            if found {
                proof {
                    lemma_first_index_is(imports@, imports_name(class_name@), i as int);
                }
                return &imports[i].package_name;
            }
            i += 1;
        }
        proof {
            lemma_first_index_none(imports@, imports_name(class_name@));
        }
        &self.class.package
    }

    /// The namespace prefix of the class that `specifier` refers to; its
    /// package path is registered where it is met for the first time and
    /// belongs to no framework.
    pub fn use_namespace(&self, specifier: &String, registry: &mut NamespaceRegistry) -> (r: Result<
        String,
        TranspileError,
    >)
        requires
            old(registry).wf(),
        ensures
            final(registry).wf(),
            text_result(r) == spec_resolve_prefix(spec_class_package(*self.class, specifier@)),
            final(registry)@ == spec_resolve_paths(
                old(registry)@,
                spec_class_package(*self.class, specifier@),
            ),
    {
        let path = self.get_class_package(specifier);
        registry.resolve_path(path)
    }
}

} // verus!
