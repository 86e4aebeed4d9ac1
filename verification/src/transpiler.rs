//! The reconstruction of a document from its compiled class.

use vstd::prelude::*;
use crate::classify::{
    Classification, assigned_property, spec_assigned_property, spec_classify, spec_factory_call,
};
use crate::document::{MxmlDoc, MxmlDocView};
use crate::encode::spec_parse_attr;
use crate::error::TranspileError;
use crate::lookup::{spec_class_package, spec_get_function};
use crate::mxml::{
    AttributeChild, ElemAttribute, MxmlElement, MxmlElementView, attribute_children_view,
    attributes_view, children_view,
};
use crate::namespaces::{NamespaceRegistry, spec_resolve_paths, spec_resolve_prefix};
use crate::syntax::{CompiledClass, Expr, FunctionDefinition, Statement};
use crate::text::same_text;

verus! {

/// The reconstruction of one document: the class that it reads.
pub struct MxmlTranspiler<'a> {
    pub class: &'a CompiledClass,
}

/// The three lists of an element while it is being built.
pub struct ElementPartsView {
    pub attributes: Seq<(Seq<char>, Seq<char>)>,
    pub attribute_children: Seq<(Seq<char>, MxmlElementView)>,
    pub children: Seq<MxmlElementView>,
}

/// Where a step of the reconstruction ends: the package paths registered so
/// far, and what the step made or the failure that stopped it.
pub struct Pass<T> {
    pub paths: Seq<Seq<Seq<char>>>,
    pub result: Result<T, TranspileError>,
}

/// The lists of an element that has nothing yet.
pub open spec fn spec_no_parts() -> ElementPartsView {
    ElementPartsView {
        attributes: Seq::empty(),
        attribute_children: Seq::empty(),
        children: Seq::empty(),
    }
}

/// Whether `function` is the constructor, which builds the root.
pub open spec fn spec_is_root(class: CompiledClass, function: FunctionDefinition) -> bool {
    function.name@ == class.name@
}

/// The class of the element that `function` builds: for the constructor the
/// class that the document class extends, else the declared result type;
/// none where that is missing or no bare identifier.
pub open spec fn spec_element_class(class: CompiledClass, function: FunctionDefinition) -> Option<
    Seq<char>,
> {
    let named = if spec_is_root(class, function) {
        class.extends_clause
    } else {
        function.result_type
    };
    match named {
        Some(reference) => reference.spec_identifier(),
        None => None,
    }
}

/// The object whose properties `function` sets: `Some(None)` for `this` in
/// the constructor; else the variable that the first statement of `body`
/// defines, and `None` where there is no such statement or its first target
/// is no bare identifier.
pub open spec fn spec_receiver(
    class: CompiledClass,
    function: FunctionDefinition,
    body: Seq<Statement>,
) -> Option<Option<Seq<char>>> {
    if spec_is_root(class, function) {
        Some(None)
    } else if body.len() > 0 {
        match body[0] {
            Statement::VariableDefinition(targets) => if targets@.len() > 0 {
                match targets@[0].spec_identifier() {
                    Some(variable) => Some(Some(variable)),
                    None => None,
                }
            } else {
                None
            },
            _ => None,
        }
    } else {
        None
    }
}

/// The qualified name of a property whose value is a nested element: the
/// prefix of the enclosing element, a colon and the property's name.
pub open spec fn spec_attribute_child_name(prefix: Seq<char>, name: Seq<char>) -> Seq<char> {
    prefix + ":"@ + name
}

/// The element that the function of index `function` builds, and the
/// package paths registered once it is built, starting from `paths`.
/// `active` holds the functions that are being reconstructed around this
/// one: reaching one of them again is a cycle.
pub open spec fn spec_parse_elem(
    class: CompiledClass,
    function: usize,
    active: Seq<usize>,
    paths: Seq<Seq<Seq<char>>>,
) -> Pass<Option<MxmlElementView>>
    decreases class.functions@.len() - active.len(), 0nat, 0nat,
{
    if function >= class.functions@.len() {
        Pass { paths, result: Ok(None) }
    } else if active.contains(function) || active.len() >= class.functions@.len() {
        Pass { paths, result: Err(TranspileError::CycleDetected) }
    } else {
        let definition = class.functions@[function as int];
        match (definition.body, spec_element_class(class, definition)) {
            (Some(body), Some(class_name)) => {
                let package = spec_class_package(class, class_name);
                match spec_resolve_prefix(package) {
                    Err(e) => Pass { paths, result: Err(e) },
                    Ok(prefix) => {
                        let registered = spec_resolve_paths(paths, package);
                        match spec_receiver(class, definition, body@) {
                            None => Pass { paths: registered, result: Ok(None) },
                            Some(receiver) => {
                                let first: int = if receiver is None {
                                    0
                                } else {
                                    1
                                };
                                let done = spec_parse_statements(
                                    class,
                                    definition.name@,
                                    body@,
                                    first,
                                    receiver,
                                    prefix,
                                    active.push(function),
                                    spec_no_parts(),
                                    registered,
                                );
                                match done.result {
                                    Err(e) => Pass { paths: done.paths, result: Err(e) },
                                    Ok(parts) => Pass {
                                        paths: done.paths,
                                        result: Ok(
                                            Some(
                                                MxmlElementView {
                                                    namespace: prefix,
                                                    class_name,
                                                    attributes: parts.attributes,
                                                    attribute_children: parts.attribute_children,
                                                    children: parts.children,
                                                },
                                            ),
                                        ),
                                    },
                                }
                            },
                        }
                    },
                }
            },
            _ => Pass { paths, result: Ok(None) },
        }
    }
}

/// The lists of an element after the statements of `body` from index `from`
/// on have been read in order, starting from `parts` and `paths`. The first
/// failure stops the reading.
pub open spec fn spec_parse_statements(
    class: CompiledClass,
    function_name: Seq<char>,
    body: Seq<Statement>,
    from: int,
    receiver: Option<Seq<char>>,
    prefix: Seq<char>,
    active: Seq<usize>,
    parts: ElementPartsView,
    paths: Seq<Seq<Seq<char>>>,
) -> Pass<ElementPartsView>
    decreases class.functions@.len() - active.len(), 3nat, body.len() - from,
{
    if from < 0 || from >= body.len() {
        Pass { paths, result: Ok(parts) }
    } else {
        let step = spec_parse_statement(
            class,
            function_name,
            body[from],
            receiver,
            prefix,
            active,
            parts,
            paths,
        );
        match step.result {
            Err(e) => step,
            Ok(next) => spec_parse_statements(
                class,
                function_name,
                body,
                from + 1,
                receiver,
                prefix,
                active,
                next,
                step.paths,
            ),
        }
    }
}

/// The lists of an element after one statement has been read. Only an
/// assignment to a property of the element's object contributes, and what it
/// contributes is decided by `spec_classify`.
pub open spec fn spec_parse_statement(
    class: CompiledClass,
    function_name: Seq<char>,
    statement: Statement,
    receiver: Option<Seq<char>>,
    prefix: Seq<char>,
    active: Seq<usize>,
    parts: ElementPartsView,
    paths: Seq<Seq<Seq<char>>>,
) -> Pass<ElementPartsView>
    decreases class.functions@.len() - active.len(), 2nat, 0nat,
{
    match spec_assigned_property(statement, receiver) {
        None => Pass { paths, result: Ok(parts) },
        Some((name, value)) => match spec_classify(class, function_name, name, value) {
            Classification::Dropped => Pass { paths, result: Ok(parts) },
            Classification::ChildrenBatch => {
                let entries = match value {
                    Expr::ArrayLiteral(entries) => entries@,
                    _ => Seq::empty(),
                };
                let batch = spec_parse_children(class, entries, 0, active, parts.children, paths);
                match batch.result {
                    Err(e) => Pass { paths: batch.paths, result: Err(e) },
                    Ok(children) => Pass {
                        paths: batch.paths,
                        result: Ok(ElementPartsView { children, ..parts }),
                    },
                }
            },
            Classification::AttributeChild(factory) => {
                let nested = spec_parse_elem(class, factory, active, paths);
                match nested.result {
                    Err(e) => Pass { paths: nested.paths, result: Err(e) },
                    Ok(None) => Pass { paths: nested.paths, result: Ok(parts) },
                    Ok(Some(element)) => Pass {
                        paths: nested.paths,
                        result: Ok(
                            ElementPartsView {
                                attribute_children: parts.attribute_children.push(
                                    (spec_attribute_child_name(prefix, name), element),
                                ),
                                ..parts
                            },
                        ),
                    },
                }
            },
            Classification::Attribute => match spec_parse_attr(name, value) {
                Err(e) => Pass { paths, result: Err(e) },
                Ok(None) => Pass { paths, result: Ok(parts) },
                Ok(Some(attribute)) => Pass {
                    paths,
                    result: Ok(
                        ElementPartsView { attributes: parts.attributes.push(attribute), ..parts },
                    ),
                },
            },
        },
    }
}

/// The children of an element after the entries of an array from index
/// `from` on have been read in order. An entry that calls a factory function
/// adds the element that the function builds, if it builds one; any other
/// entry adds nothing.
pub open spec fn spec_parse_children(
    class: CompiledClass,
    entries: Seq<Expr>,
    from: int,
    active: Seq<usize>,
    children: Seq<MxmlElementView>,
    paths: Seq<Seq<Seq<char>>>,
) -> Pass<Seq<MxmlElementView>>
    decreases class.functions@.len() - active.len(), 1nat, entries.len() - from,
{
    if from < 0 || from >= entries.len() {
        Pass { paths, result: Ok(children) }
    } else {
        match spec_factory_call(class, entries[from]) {
            None => spec_parse_children(class, entries, from + 1, active, children, paths),
            Some(factory) => {
                let nested = spec_parse_elem(class, factory, active, paths);
                match nested.result {
                    Err(e) => Pass { paths: nested.paths, result: Err(e) },
                    Ok(None) => spec_parse_children(
                        class,
                        entries,
                        from + 1,
                        active,
                        children,
                        nested.paths,
                    ),
                    Ok(Some(element)) => spec_parse_children(
                        class,
                        entries,
                        from + 1,
                        active,
                        children.push(element),
                        nested.paths,
                    ),
                }
            },
        }
    }
}

/// The document of a class: none where the class has no constructor, where
/// the constructor does not mark a document class, or where the root cannot
/// be built; else the root that the constructor builds and the package paths
/// registered on the way, starting with none.
pub open spec fn spec_parse_doc(class: CompiledClass) -> Result<
    Option<MxmlDocView>,
    TranspileError,
> {
    match spec_get_function(class, class.name@) {
        None => Ok(None),
        Some(constructor) => if !class.functions@[constructor as int].spec_is_doc_elem() {
            Ok(None)
        } else {
            let pass = spec_parse_elem(class, constructor, Seq::empty(), Seq::empty());
            match pass.result {
                Err(e) => Err(e),
                Ok(None) => Ok(None),
                Ok(Some(root)) => Ok(Some(MxmlDocView { root, namespaces: pass.paths })),
            }
        },
    }
}

/// A result that holds a document or none, with the document as a
/// mathematical value.
pub open spec fn doc_result(r: Result<Option<MxmlDoc>, TranspileError>) -> Result<
    Option<MxmlDocView>,
    TranspileError,
> {
    match r {
        Ok(Some(doc)) => Ok(Some(doc@)),
        Ok(None) => Ok(None),
        Err(e) => Err(e),
    }
}

/// The three lists of an element while it is being built.
pub struct ElementParts {
    pub attributes: Vec<ElemAttribute>,
    pub attribute_children: Vec<AttributeChild>,
    pub children: Vec<MxmlElement>,
}

impl View for ElementParts {
    type V = ElementPartsView;

    open spec fn view(&self) -> ElementPartsView {
        ElementPartsView {
            attributes: attributes_view(self.attributes),
            attribute_children: attribute_children_view(self.attribute_children),
            children: children_view(self.children),
        }
    }
}

/// A result that holds an element or none, with the element as a
/// mathematical value.
pub open spec fn element_result(r: Result<Option<MxmlElement>, TranspileError>) -> Result<
    Option<MxmlElementView>,
    TranspileError,
> {
    match r {
        Ok(Some(element)) => Ok(Some(element@)),
        Ok(None) => Ok(None),
        Err(e) => Err(e),
    }
}

/// A result that holds the lists of an element, as mathematical values.
pub open spec fn parts_result(r: Result<ElementParts, TranspileError>) -> Result<
    ElementPartsView,
    TranspileError,
> {
    match r {
        Ok(parts) => Ok(parts@),
        Err(e) => Err(e),
    }
}

/// A result that holds a list of elements, as mathematical values.
pub open spec fn children_result(r: Result<Vec<MxmlElement>, TranspileError>) -> Result<
    Seq<MxmlElementView>,
    TranspileError,
> {
    match r {
        Ok(children) => Ok(children_view(children)),
        Err(e) => Err(e),
    }
}

/// The name of the variable that stands for the element, as its characters;
/// `None` stands for `this`.
pub open spec fn spec_receiver_name(receiver: Option<&String>) -> Option<Seq<char>> {
    match receiver {
        Some(variable) => Some(variable@),
        None => None,
    }
}

/// Whether `function` is among the functions that are being reconstructed.
pub fn is_active(active: &Vec<usize>, function: usize) -> (r: bool)
    ensures
        r == active@.contains(function),
{
    let mut i: usize = 0;
    while i < active.len()
        invariant
            i <= active.len(),
            forall|k: int| 0 <= k < i ==> active@[k] != function,
        decreases active.len() - i,
    {
        if active[i] == function {
            return true;
        }
        i += 1;
    }
    false
}

impl<'a> MxmlTranspiler<'a> {
    /// Reconstructs the document of `class`. Returns nothing where the class
    /// is no document class or its root cannot be built: the file is then to
    /// be left as it is.
    pub fn parse_doc(class: &'a CompiledClass) -> (r: Result<Option<MxmlDoc>, TranspileError>)
        ensures
            doc_result(r) == spec_parse_doc(*class),
            r matches Ok(Some(doc)) ==> doc.namespaces.wf(),
    {
        let transpiler = MxmlTranspiler { class };
        let constructor = match transpiler.get_function(&class.name) {
            None => {
                return Ok(None);
            },
            Some(constructor) => constructor,
        };
        if !class.functions[constructor].is_doc_elem() {
            return Ok(None);
        }
        let mut namespaces = NamespaceRegistry::new();
        let mut active: Vec<usize> = Vec::new();
        match transpiler.parse_elem(constructor, &mut active, &mut namespaces) {
            Err(e) => Err(e),
            Ok(None) => Ok(None),
            Ok(Some(root)) => Ok(Some(MxmlDoc { root, namespaces })),
        }
    }

    /// Reads the entries of a children array in order and adds to `children`
    /// the element of each entry that calls a factory function.
    #[verifier::loop_isolation(false)]
    pub fn parse_children(
        &self,
        entries: &Vec<Expr>,
        children: Vec<MxmlElement>,
        active: &mut Vec<usize>,
        registry: &mut NamespaceRegistry,
    ) -> (r: Result<Vec<MxmlElement>, TranspileError>)
        requires
            old(registry).wf(),
        ensures
            final(registry).wf(),
            final(active)@ == old(active)@,
            final(registry)@ == spec_parse_children(
                *self.class,
                entries@,
                0,
                old(active)@,
                children_view(children),
                old(registry)@,
            ).paths,
            children_result(r) == spec_parse_children(
                *self.class,
                entries@,
                0,
                old(active)@,
                children_view(children),
                old(registry)@,
            ).result,
        decreases self.class.functions@.len() - old(active)@.len(), 1nat,
    {
        let ghost goal = spec_parse_children(
            *self.class,
            entries@,
            0,
            active@,
            children_view(children),
            registry@,
        );
        let mut children = children;
        let mut i: usize = 0;
        while i < entries.len()
            invariant
                i <= entries.len(),
                registry.wf(),
                active@ == old(active)@,
                spec_parse_children(
                    *self.class,
                    entries@,
                    i as int,
                    active@,
                    children_view(children),
                    registry@,
                ) == goal,
            decreases entries.len() - i,
        {
            match self.factory_call(&entries[i]) {
                None => {},
                Some(factory) => {
                    match self.parse_elem(factory, active, registry) {
                        Err(e) => {
                            return Err(e);
                        },
                        Ok(None) => {},
                        Ok(Some(element)) => {
                            let ghost before = children_view(children);
                            children.push(element);
                            assert(children_view(children) =~= before.push(element@));
                        },
                    }
                },
            }
            i += 1;
        }
        Ok(children)
    }

    /// Reconstructs the factory function of index `val` as the value of the
    /// property with the qualified name `name`.
    pub fn parse_attr_child(
        &self,
        name: String,
        val: usize,
        active: &mut Vec<usize>,
        registry: &mut NamespaceRegistry,
    ) -> (r: Result<Option<AttributeChild>, TranspileError>)
        requires
            old(registry).wf(),
        ensures
            final(registry).wf(),
            final(active)@ == old(active)@,
            final(registry)@ == spec_parse_elem(
                *self.class,
                val,
                old(active)@,
                old(registry)@,
            ).paths,
            match spec_parse_elem(*self.class, val, old(active)@, old(registry)@).result {
                Ok(Some(element)) => r matches Ok(Some(child)) && child@ == (name@, element),
                Ok(None) => r matches Ok(None),
                Err(e) => r == Err::<Option<AttributeChild>, TranspileError>(e),
            },
        decreases self.class.functions@.len() - old(active)@.len(), 1nat,
    {
        match self.parse_elem(val, active, registry) {
            Err(e) => Err(e),
            Ok(None) => Ok(None),
            Ok(Some(element)) => Ok(Some(AttributeChild(name, element))),
        }
    }

    /// Reads one top-level statement of a factory function and adds to
    /// `parts` what it contributes to the element.
    pub fn parse_statement(
        &self,
        function_name: &String,
        statement: &Statement,
        receiver: Option<&String>,
        prefix: &String,
        parts: ElementParts,
        active: &mut Vec<usize>,
        registry: &mut NamespaceRegistry,
    ) -> (r: Result<ElementParts, TranspileError>)
        requires
            old(registry).wf(),
        ensures
            final(registry).wf(),
            final(active)@ == old(active)@,
            final(registry)@ == spec_parse_statement(
                *self.class,
                function_name@,
                *statement,
                spec_receiver_name(receiver),
                prefix@,
                old(active)@,
                parts@,
                old(registry)@,
            ).paths,
            parts_result(r) == spec_parse_statement(
                *self.class,
                function_name@,
                *statement,
                spec_receiver_name(receiver),
                prefix@,
                old(active)@,
                parts@,
                old(registry)@,
            ).result,
        decreases self.class.functions@.len() - old(active)@.len(), 2nat,
    {
        let (name, value) = match assigned_property(statement, receiver) {
            None => {
                return Ok(parts);
            },
            Some(assigned) => assigned,
        };
        let ElementParts { attributes, attribute_children, children } = parts;
        match self.classify(function_name, name, value) {
            Classification::Dropped => Ok(ElementParts { attributes, attribute_children, children }),
            Classification::ChildrenBatch => match value {
                Expr::ArrayLiteral(entries) => {
                    match self.parse_children(entries, children, active, registry) {
                        Err(e) => Err(e),
                        Ok(children) => Ok(
                            ElementParts { attributes, attribute_children, children },
                        ),
                    }
                },
                _ => Ok(ElementParts { attributes, attribute_children, children }),
            },
            Classification::AttributeChild(factory) => {
                let mut qualified = prefix.clone();
                qualified.append(":");
                qualified.append(name.as_str());
                match self.parse_attr_child(qualified, factory, active, registry) {
                    Err(e) => Err(e),
                    Ok(None) => Ok(ElementParts { attributes, attribute_children, children }),
                    Ok(Some(child)) => {
                        let mut attribute_children = attribute_children;
                        let ghost before = attribute_children_view(attribute_children);
                        let ghost added = child@;
                        attribute_children.push(child);
                        assert(attribute_children_view(attribute_children) =~= before.push(added));
                        Ok(ElementParts { attributes, attribute_children, children })
                    },
                }
            },
            Classification::Attribute => match Self::parse_attr(name.clone(), value) {
                Err(e) => Err(e),
                Ok(None) => Ok(ElementParts { attributes, attribute_children, children }),
                Ok(Some(attribute)) => {
                    let mut attributes = attributes;
                    let ghost before = attributes_view(attributes);
                    let ghost added = attribute@;
                    attributes.push(attribute);
                    assert(attributes_view(attributes) =~= before.push(added));
                    Ok(ElementParts { attributes, attribute_children, children })
                },
            },
        }
    }

    /// Reads the top-level statements of a factory function from index
    /// `first` on and collects what they contribute to the element.
    #[verifier::loop_isolation(false)]
    pub fn parse_statements(
        &self,
        function_name: &String,
        body: &Vec<Statement>,
        first: usize,
        receiver: Option<&String>,
        prefix: &String,
        active: &mut Vec<usize>,
        registry: &mut NamespaceRegistry,
    ) -> (r: Result<ElementParts, TranspileError>)
        requires
            old(registry).wf(),
        ensures
            final(registry).wf(),
            final(active)@ == old(active)@,
            final(registry)@ == spec_parse_statements(
                *self.class,
                function_name@,
                body@,
                first as int,
                spec_receiver_name(receiver),
                prefix@,
                old(active)@,
                spec_no_parts(),
                old(registry)@,
            ).paths,
            parts_result(r) == spec_parse_statements(
                *self.class,
                function_name@,
                body@,
                first as int,
                spec_receiver_name(receiver),
                prefix@,
                old(active)@,
                spec_no_parts(),
                old(registry)@,
            ).result,
        decreases self.class.functions@.len() - old(active)@.len(), 3nat,
    {
        let mut parts = ElementParts {
            attributes: Vec::new(),
            attribute_children: Vec::new(),
            children: Vec::new(),
        };
        assert(parts@.attributes =~= spec_no_parts().attributes);
        assert(parts@.attribute_children =~= spec_no_parts().attribute_children);
        assert(parts@.children =~= spec_no_parts().children);
        let ghost goal = spec_parse_statements(
            *self.class,
            function_name@,
            body@,
            first as int,
            spec_receiver_name(receiver),
            prefix@,
            active@,
            spec_no_parts(),
            registry@,
        );
        let mut i: usize = first;
        while i < body.len()
            invariant
                first <= i,
                registry.wf(),
                active@ == old(active)@,
                spec_parse_statements(
                    *self.class,
                    function_name@,
                    body@,
                    i as int,
                    spec_receiver_name(receiver),
                    prefix@,
                    active@,
                    parts@,
                    registry@,
                ) == goal,
            decreases body.len() - i,
        {
            match self.parse_statement(
                function_name,
                &body[i],
                receiver,
                prefix,
                parts,
                active,
                registry,
            ) {
                Err(e) => {
                    return Err(e);
                },
                Ok(next) => {
                    parts = next;
                },
            }
            i += 1;
        }
        Ok(parts)
    }

    /// The class of the element that the member function `function` builds.
    pub fn element_class(&self, function: &'a FunctionDefinition) -> (r: Option<&'a String>)
        ensures
            match r {
                Some(name) => spec_element_class(*self.class, *function) == Some(name@),
                None => spec_element_class(*self.class, *function) is None,
            },
    {
        let named = if same_text(function.name.as_str(), self.class.name.as_str()) {
            &self.class.extends_clause
        } else {
            &function.result_type
        };
        match named {
            Some(reference) => reference.identifier(),
            None => None,
        }
    }

    /// Reconstructs the element that the member function of index `elem_def`
    /// builds. `active` holds the functions that are being reconstructed
    /// around this one.
    pub fn parse_elem(
        &self,
        elem_def: usize,
        active: &mut Vec<usize>,
        registry: &mut NamespaceRegistry,
    ) -> (r: Result<Option<MxmlElement>, TranspileError>)
        requires
            old(registry).wf(),
        ensures
            final(registry).wf(),
            final(active)@ == old(active)@,
            final(registry)@ == spec_parse_elem(
                *self.class,
                elem_def,
                old(active)@,
                old(registry)@,
            ).paths,
            element_result(r) == spec_parse_elem(
                *self.class,
                elem_def,
                old(active)@,
                old(registry)@,
            ).result,
        decreases self.class.functions@.len() - old(active)@.len(), 0nat,
    {
        let class: &'a CompiledClass = self.class;
        if elem_def >= class.functions.len() {
            return Ok(None);
        }
        if is_active(active, elem_def) || active.len() >= class.functions.len() {
            return Err(TranspileError::CycleDetected);
        }
        let definition = &class.functions[elem_def];
        let body = match &definition.body {
            None => {
                return Ok(None);
            },
            Some(body) => body,
        };
        let class_name = match self.element_class(definition) {
            None => {
                return Ok(None);
            },
            Some(class_name) => class_name,
        };
        let prefix = match self.use_namespace(class_name, registry) {
            Err(e) => {
                return Err(e);
            },
            Ok(prefix) => prefix,
        };
        let parse_as_root = same_text(definition.name.as_str(), class.name.as_str());
        let receiver: Option<&String> = if parse_as_root {
            None
        } else {
            if body.len() == 0 {
                return Ok(None);
            }
            let variable = match &body[0] {
                Statement::VariableDefinition(targets) => if targets.len() > 0 {
                    targets[0].identifier()
                } else {
                    None
                },
                _ => None,
            };
            match variable {
                None => {
                    return Ok(None);
                },
                Some(variable) => Some(variable),
            }
        };
        let first: usize = if parse_as_root {
            0
        } else {
            1
        };
        active.push(elem_def);
        let done = self.parse_statements(
            &definition.name,
            body,
            first,
            receiver,
            &prefix,
            active,
            registry,
        );
        active.pop();
        match done {
            Err(e) => Err(e),
            Ok(parts) => {
                let ElementParts { attributes, attribute_children, children } = parts;
                Ok(
                    Some(
                        MxmlElement {
                            namespace: prefix,
                            class_name: class_name.clone(),
                            attributes,
                            attribute_children,
                            children,
                        },
                    ),
                )
            },
        }
    }
}

} // verus!
