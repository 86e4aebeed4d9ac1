//! Laws of the reconstruction, proved from the definitions.

use vstd::prelude::*;
use vstd::set_lib::{lemma_int_range, lemma_len_subset, set_int_range};
use crate::classify::{Classification, spec_assigned_property, spec_classify, spec_factory_call};
use crate::detect::spec_marks_document;
use crate::document::{MxmlDocView, spec_document_events};
use crate::error::TranspileError;
use crate::events::{
    WriterEventView, spec_attribute_child_events, spec_attribute_children_events,
    spec_children_events, spec_element_events,
};
use crate::lookup::{is_named, spec_class_package, spec_get_function};
use crate::mxml::MxmlElementView;
use crate::namespaces::{
    spec_declarations, spec_is_fixed, spec_resolve_paths, spec_resolve_prefix,
};
use crate::search::{lemma_first_index, spec_first_index};
use crate::syntax::{CompiledClass, Expr, Statement};
use crate::transpiler::{
    ElementPartsView, spec_element_class, spec_no_parts, spec_parse_children, spec_parse_doc,
    spec_parse_elem, spec_parse_statement, spec_parse_statements, spec_receiver,
};

verus! {

/// Whether `path` stands in `paths` at exactly one place.
pub open spec fn spec_registered_once(paths: Seq<Seq<Seq<char>>>, path: Seq<Seq<char>>) -> bool {
    exists|i: int|
        0 <= i < paths.len() && #[trigger] paths[i] == path && forall|j: int|
            0 <= j < paths.len() && #[trigger] paths[j] == path ==> j == i
}

/// Resolving is idempotent. The prefix of a class reference depends on its
/// package path alone, so resolving it again yields the same prefix; the
/// second resolution registers nothing; and a path that resolving registers
/// stands in the registry exactly once.
pub proof fn lemma_resolve_idempotent(
    class: CompiledClass,
    identifier: Seq<char>,
    paths: Seq<Seq<Seq<char>>>,
)
    requires
        paths.no_duplicates(),
    ensures
        ({
            let path = spec_class_package(class, identifier);
            let once = spec_resolve_paths(paths, path);
            &&& spec_resolve_paths(once, path) == once
            &&& once.no_duplicates()
            &&& !spec_is_fixed(path) ==> spec_registered_once(once, path)
        }),
{
    let path = spec_class_package(class, identifier);
    if !spec_is_fixed(path) && !paths.contains(path) {
        assert(spec_resolve_paths(paths, path)[paths.len() as int] == path);
    }
}

/// The three framework package roots resolve to their fixed prefixes and
/// register nothing, whatever the imports of the class and whatever has been
/// registered.
pub proof fn lemma_framework_roots_are_fixed(
    class: CompiledClass,
    identifier: Seq<char>,
    paths: Seq<Seq<Seq<char>>>,
)
    requires
        spec_class_package(class, identifier).len() > 0,
    ensures
        ({
            let path = spec_class_package(class, identifier);
            &&& path[0] == "fx"@ ==> (spec_resolve_prefix(path) matches Ok(p) && p == "fx"@)
            &&& path[0] == "spark"@ ==> (spec_resolve_prefix(path) matches Ok(p) && p == "s"@)
            &&& path[0] == "mx"@ ==> (spec_resolve_prefix(path) matches Ok(p) && p == "mx"@)
            &&& path[0] == "fx"@ || path[0] == "spark"@ || path[0] == "mx"@ ==> spec_resolve_paths(
                paths,
                path,
            ) == paths
        }),
{
    reveal_strlit("fx");
    reveal_strlit("spark");
    reveal_strlit("mx");
}

/// On the constructor of a document class the reconstruction yields nothing
/// exactly where the class extends no bare identifier; everywhere else it
/// yields the root element or a failure of the whole file.
pub proof fn lemma_root_fails_only_on_extends(
    class: CompiledClass,
    constructor: usize,
    paths: Seq<Seq<Seq<char>>>,
)
    requires
        spec_get_function(class, class.name@) == Some(constructor),
        class.functions@[constructor as int].spec_is_doc_elem(),
    ensures
        (spec_parse_elem(class, constructor, Seq::empty(), paths).result matches Ok(None))
            <==> spec_element_class(class, class.functions@[constructor as int]) is None,
        spec_element_class(class, class.functions@[constructor as int]) == match class.extends_clause {
            Some(reference) => reference.spec_identifier(),
            None => None,
        },
{
    lemma_first_index(class.functions@, is_named(class.name@));
    let found = spec_first_index(class.functions@, is_named(class.name@))->Some_0;
    assert(found < class.functions.len());
    assert(constructor == found);
    assert(is_named(class.name@)(class.functions@[found]));
    assert(!Seq::<usize>::empty().contains(constructor));
}

/// A class whose constructor has no `mx_internal::_document = this` among
/// its top-level statements is no document class, and has no document.
pub proof fn lemma_unmarked_constructor_has_no_document(class: CompiledClass, constructor: usize)
    requires
        spec_get_function(class, class.name@) == Some(constructor),
        match class.functions@[constructor as int].body {
            Some(statements) => forall|i: int|
                0 <= i < statements@.len() ==> !spec_marks_document(#[trigger] statements@[i]),
            None => true,
        },
    ensures
        !class.functions@[constructor as int].spec_is_doc_elem(),
        spec_parse_doc(class) matches Ok(None),
{
}

/// From an index behind `dropped` on, the entries of a children array are
/// read as those of the array without the entry at `dropped`, one index
/// lower.
proof fn lemma_children_shift(
    class: CompiledClass,
    entries: Seq<Expr>,
    dropped: int,
    from: int,
    active: Seq<usize>,
    children: Seq<MxmlElementView>,
    paths: Seq<Seq<Seq<char>>>,
)
    requires
        0 <= dropped < from <= entries.len(),
    ensures
        spec_parse_children(class, entries, from, active, children, paths) == spec_parse_children(
            class,
            entries.remove(dropped),
            from - 1,
            active,
            children,
            paths,
        ),
    decreases entries.len() - from,
{
    let fewer = entries.remove(dropped);
    if from < entries.len() {
        assert(fewer[from - 1] == entries[from]);
        match spec_factory_call(class, entries[from]) {
            None => {
                lemma_children_shift(class, entries, dropped, from + 1, active, children, paths);
            },
            Some(factory) => {
                let nested = spec_parse_elem(class, factory, active, paths);
                match nested.result {
                    Err(e) => {},
                    Ok(None) => {
                        lemma_children_shift(
                            class,
                            entries,
                            dropped,
                            from + 1,
                            active,
                            children,
                            nested.paths,
                        );
                    },
                    Ok(Some(element)) => {
                        lemma_children_shift(
                            class,
                            entries,
                            dropped,
                            from + 1,
                            active,
                            children.push(element),
                            nested.paths,
                        );
                    },
                }
            },
        }
    }
}

/// An entry of a children array that calls no factory function of the class
/// is dropped alone: the array yields the children, the registered paths and
/// the failure that it yields without that entry.
pub proof fn lemma_unresolved_entry_is_dropped_alone(
    class: CompiledClass,
    entries: Seq<Expr>,
    dropped: int,
    from: int,
    active: Seq<usize>,
    children: Seq<MxmlElementView>,
    paths: Seq<Seq<Seq<char>>>,
)
    requires
        0 <= from <= dropped < entries.len(),
        spec_factory_call(class, entries[dropped]) is None,
    ensures
        spec_parse_children(class, entries, from, active, children, paths) == spec_parse_children(
            class,
            entries.remove(dropped),
            from,
            active,
            children,
            paths,
        ),
    decreases dropped - from,
{
    let fewer = entries.remove(dropped);
    if from == dropped {
        if dropped + 1 <= entries.len() {
            lemma_children_shift(class, entries, dropped, dropped + 1, active, children, paths);
        }
    } else {
        assert(fewer[from] == entries[from]);
        match spec_factory_call(class, entries[from]) {
            None => {
                lemma_unresolved_entry_is_dropped_alone(
                    class,
                    entries,
                    dropped,
                    from + 1,
                    active,
                    children,
                    paths,
                );
            },
            Some(factory) => {
                let nested = spec_parse_elem(class, factory, active, paths);
                match nested.result {
                    Err(e) => {},
                    Ok(None) => {
                        lemma_unresolved_entry_is_dropped_alone(
                            class,
                            entries,
                            dropped,
                            from + 1,
                            active,
                            children,
                            nested.paths,
                        );
                    },
                    Ok(Some(element)) => {
                        lemma_unresolved_entry_is_dropped_alone(
                            class,
                            entries,
                            dropped,
                            from + 1,
                            active,
                            children.push(element),
                            nested.paths,
                        );
                    },
                }
            },
        }
    }
}

/// A sequence of distinct numbers below `bound` has at most `bound` items.
proof fn lemma_distinct_below_bound(items: Seq<usize>, bound: nat)
    requires
        items.no_duplicates(),
        forall|i: int| 0 <= i < items.len() ==> (#[trigger] items[i]) < bound,
    ensures
        items.len() <= bound,
{
    let numbers = Seq::new(items.len(), |i: int| items[i] as int);
    numbers.unique_seq_to_set();
    lemma_int_range(0, bound as int);
    assert forall|x: int| numbers.to_set().contains(x) implies set_int_range(
        0,
        bound as int,
    ).contains(x) by {}
    lemma_len_subset(numbers.to_set(), set_int_range(0, bound as int));
}

/// While the functions that are being reconstructed are distinct functions
/// of the class, a cycle is found exactly where a function is reached that
/// is being reconstructed: the bound on the depth never decides.
pub proof fn lemma_cycle_is_a_repeated_function(
    class: CompiledClass,
    function: usize,
    active: Seq<usize>,
    paths: Seq<Seq<Seq<char>>>,
)
    requires
        function < class.functions@.len(),
        active.no_duplicates(),
        forall|i: int| 0 <= i < active.len() ==> (#[trigger] active[i]) < class.functions@.len(),
    ensures
        !active.contains(function) ==> active.len() < class.functions@.len(),
        active.contains(function) ==> spec_parse_elem(class, function, active, paths).result
            == Err::<Option<MxmlElementView>, TranspileError>(TranspileError::CycleDetected),
{
    if !active.contains(function) {
        lemma_distinct_below_bound(active.push(function), class.functions@.len());
    }
}

/// Whether an event declares no namespace.
pub open spec fn spec_declares_nothing(event: WriterEventView) -> bool {
    match event {
        WriterEventView::StartElement { namespaces, .. } => namespaces.len() == 0,
        WriterEventView::EndElement => true,
    }
}

/// In the events of an element only the first, its own start, declares
/// namespaces, and it declares those that the element was given.
pub proof fn lemma_only_the_start_declares(
    element: MxmlElementView,
    declarations: Seq<(Seq<char>, Seq<char>)>,
)
    ensures
        spec_element_events(element, declarations).len() >= 2,
        spec_element_events(element, declarations)[0] == (WriterEventView::StartElement {
            prefix: Some(element.namespace),
            local_name: element.class_name,
            attributes: element.attributes,
            namespaces: declarations,
        }),
        forall|i: int|
            1 <= i < spec_element_events(element, declarations).len() ==> spec_declares_nothing(
                #[trigger] spec_element_events(element, declarations)[i],
            ),
    decreases element, 1nat,
{
    let children = spec_children_events(element.children, element.children.len());
    let nested = spec_attribute_children_events(
        element.attribute_children,
        element.attribute_children.len(),
    );
    let events = spec_element_events(element, declarations);
    lemma_children_declare_nothing(element.children, element.children.len());
    lemma_attribute_children_declare_nothing(
        element.attribute_children,
        element.attribute_children.len(),
    );
    assert(events.len() == 2 + children.len() + nested.len());
    assert forall|i: int| 1 <= i < events.len() implies spec_declares_nothing(
        #[trigger] events[i],
    ) by {
        if i < 1 + children.len() {
            assert(events[i] == children[i - 1]);
        } else if i < 1 + children.len() + nested.len() {
            assert(events[i] == nested[i - 1 - children.len()]);
        } else {
            assert(events[i] == WriterEventView::EndElement);
        }
    }
}

/// The events of the children of an element declare no namespace.
proof fn lemma_children_declare_nothing(children: Seq<MxmlElementView>, count: nat)
    ensures
        forall|i: int|
            0 <= i < spec_children_events(children, count).len() ==> spec_declares_nothing(
                #[trigger] spec_children_events(children, count)[i],
            ),
    decreases children, count,
{
    if count == 0 || count > children.len() {
    } else {
        let before = spec_children_events(children, (count - 1) as nat);
        let last = spec_element_events(children[count - 1], Seq::empty());
        let events = spec_children_events(children, count);
        lemma_children_declare_nothing(children, (count - 1) as nat);
        lemma_only_the_start_declares(children[count - 1], Seq::empty());
        assert forall|i: int| 0 <= i < events.len() implies spec_declares_nothing(
            #[trigger] events[i],
        ) by {
            if i < before.len() {
                assert(events[i] == before[i]);
            } else {
                assert(events[i] == last[i - before.len()]);
            }
        }
    }
}

/// The events of the attribute children of an element declare no namespace.
proof fn lemma_attribute_children_declare_nothing(
    children: Seq<(Seq<char>, MxmlElementView)>,
    count: nat,
)
    ensures
        forall|i: int|
            0 <= i < spec_attribute_children_events(children, count).len()
                ==> spec_declares_nothing(
                #[trigger] spec_attribute_children_events(children, count)[i],
            ),
    decreases children, count,
{
    if count == 0 || count > children.len() {
    } else {
        let before = spec_attribute_children_events(children, (count - 1) as nat);
        let inner = spec_element_events(children[count - 1].1, Seq::empty());
        let last = spec_attribute_child_events(children[count - 1]);
        let events = spec_attribute_children_events(children, count);
        lemma_attribute_children_declare_nothing(children, (count - 1) as nat);
        lemma_only_the_start_declares(children[count - 1].1, Seq::empty());
        assert(last.len() == 2 + inner.len());
        assert forall|i: int| 0 <= i < events.len() implies spec_declares_nothing(
            #[trigger] events[i],
        ) by {
            if i < before.len() {
                assert(events[i] == before[i]);
            } else {
                let k = i - before.len();
                assert(events[i] == last[k]);
                if 1 <= k && k < 1 + inner.len() {
                    assert(last[k] == inner[k - 1]);
                }
            }
        }
    }
}

/// Of the events of a document only the first, the start of the root,
/// declares namespaces: every namespace of the document, the framework
/// namespaces first and the registered ones in the order of registration.
pub proof fn lemma_only_the_root_declares(doc: MxmlDocView)
    ensures
        spec_document_events(doc).len() >= 2,
        spec_document_events(doc)[0] matches WriterEventView::StartElement { namespaces, .. }
            && namespaces == spec_declarations(doc.namespaces),
        forall|i: int|
            1 <= i < spec_document_events(doc).len() ==> spec_declares_nothing(
                #[trigger] spec_document_events(doc)[i],
            ),
{
    lemma_only_the_start_declares(doc.root, spec_declarations(doc.namespaces));
}

/// Whether `later` is what `earlier` can become while a document is built:
/// it starts with the paths of `earlier` in their order, and where those
/// are distinct, its own are too.
pub open spec fn spec_grows_to(earlier: Seq<Seq<Seq<char>>>, later: Seq<Seq<Seq<char>>>) -> bool {
    &&& earlier.is_prefix_of(later)
    &&& earlier.no_duplicates() ==> later.no_duplicates()
}

/// Resolving a path keeps what is registered in its place and registers
/// nothing twice.
pub proof fn lemma_resolve_grows(paths: Seq<Seq<Seq<char>>>, path: Seq<Seq<char>>)
    ensures
        spec_grows_to(paths, spec_resolve_paths(paths, path)),
{
}

/// The reconstruction of an element keeps what is registered in its place
/// and registers nothing twice, whether it succeeds or not.
pub proof fn lemma_parse_elem_grows(
    class: CompiledClass,
    function: usize,
    active: Seq<usize>,
    paths: Seq<Seq<Seq<char>>>,
)
    ensures
        spec_grows_to(paths, spec_parse_elem(class, function, active, paths).paths),
    decreases class.functions@.len() - active.len(), 0nat, 0nat,
{
    if function < class.functions@.len() && !active.contains(function) && active.len()
        < class.functions@.len() {
        let definition = class.functions@[function as int];
        match (definition.body, spec_element_class(class, definition)) {
            (Some(body), Some(class_name)) => {
                let package = spec_class_package(class, class_name);
                lemma_resolve_grows(paths, package);
                match spec_resolve_prefix(package) {
                    Err(e) => {},
                    Ok(prefix) => {
                        let registered = spec_resolve_paths(paths, package);
                        match spec_receiver(class, definition, body@) {
                            None => {},
                            Some(receiver) => {
                                let first: int = if receiver is None {
                                    0
                                } else {
                                    1
                                };
                                lemma_parse_statements_grow(
                                    class,
                                    definition.name@,
                                    body@,
                                    first,
                                    receiver,
                                    prefix,
                                    active.push(function),
                                    spec_no_parts(),
                                    registered,
                                );
                            },
                        }
                    },
                }
            },
            _ => {},
        }
    }
}

/// Reading the statements of a body keeps what is registered in its place
/// and registers nothing twice.
proof fn lemma_parse_statements_grow(
    class: CompiledClass,
    function_name: Seq<char>,
    body: Seq<Statement>,
    from: int,
    receiver: Option<Seq<char>>,
    prefix: Seq<char>,
    active: Seq<usize>,
    parts: ElementPartsView,
    paths: Seq<Seq<Seq<char>>>,
)
    ensures
        spec_grows_to(
            paths,
            spec_parse_statements(
                class,
                function_name,
                body,
                from,
                receiver,
                prefix,
                active,
                parts,
                paths,
            ).paths,
        ),
    decreases class.functions@.len() - active.len(), 3nat, body.len() - from,
{
    if 0 <= from < body.len() {
        let step = spec_parse_statement(
            class,
            function_name,
            body[from],
            receiver,
            prefix,
            active,
            parts,
            paths,
        );
        lemma_parse_statement_grows(
            class,
            function_name,
            body[from],
            receiver,
            prefix,
            active,
            parts,
            paths,
        );
        match step.result {
            Err(e) => {},
            Ok(next) => {
                lemma_parse_statements_grow(
                    class,
                    function_name,
                    body,
                    from + 1,
                    receiver,
                    prefix,
                    active,
                    next,
                    step.paths,
                );
            },
        }
    }
}

/// Reading one statement keeps what is registered in its place and registers
/// nothing twice.
proof fn lemma_parse_statement_grows(
    class: CompiledClass,
    function_name: Seq<char>,
    statement: Statement,
    receiver: Option<Seq<char>>,
    prefix: Seq<char>,
    active: Seq<usize>,
    parts: ElementPartsView,
    paths: Seq<Seq<Seq<char>>>,
)
    ensures
        spec_grows_to(
            paths,
            spec_parse_statement(
                class,
                function_name,
                statement,
                receiver,
                prefix,
                active,
                parts,
                paths,
            ).paths,
        ),
    decreases class.functions@.len() - active.len(), 2nat, 0nat,
{
    match spec_assigned_property(statement, receiver) {
        None => {},
        Some((name, value)) => match spec_classify(class, function_name, name, value) {
            Classification::ChildrenBatch => {
                let entries = match value {
                    Expr::ArrayLiteral(entries) => entries@,
                    _ => Seq::empty(),
                };
                lemma_parse_children_grow(class, entries, 0, active, parts.children, paths);
            },
            Classification::AttributeChild(factory) => {
                lemma_parse_elem_grows(class, factory, active, paths);
            },
            _ => {},
        },
    }
}

/// Reading the entries of a children array keeps what is registered in its
/// place and registers nothing twice.
proof fn lemma_parse_children_grow(
    class: CompiledClass,
    entries: Seq<Expr>,
    from: int,
    active: Seq<usize>,
    children: Seq<MxmlElementView>,
    paths: Seq<Seq<Seq<char>>>,
)
    ensures
        spec_grows_to(
            paths,
            spec_parse_children(class, entries, from, active, children, paths).paths,
        ),
    decreases class.functions@.len() - active.len(), 1nat, entries.len() - from,
{
    if 0 <= from < entries.len() {
        match spec_factory_call(class, entries[from]) {
            None => {
                lemma_parse_children_grow(class, entries, from + 1, active, children, paths);
            },
            Some(factory) => {
                let nested = spec_parse_elem(class, factory, active, paths);
                lemma_parse_elem_grows(class, factory, active, paths);
                match nested.result {
                    Err(e) => {},
                    Ok(None) => {
                        lemma_parse_children_grow(
                            class,
                            entries,
                            from + 1,
                            active,
                            children,
                            nested.paths,
                        );
                    },
                    Ok(Some(element)) => {
                        lemma_parse_children_grow(
                            class,
                            entries,
                            from + 1,
                            active,
                            children.push(element),
                            nested.paths,
                        );
                    },
                }
            },
        }
    }
}

/// In a reconstructed document no package path is registered twice.
pub proof fn lemma_document_paths_are_distinct(class: CompiledClass)
    ensures
        spec_parse_doc(class) matches Ok(Some(doc)) ==> doc.namespaces.no_duplicates(),
{
    match spec_get_function(class, class.name@) {
        None => {},
        Some(constructor) => {
            lemma_parse_elem_grows(class, constructor, Seq::empty(), Seq::empty());
        },
    }
}

} // verus!
