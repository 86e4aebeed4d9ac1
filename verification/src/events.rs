//! The events that a markup tree is written out as.

use vstd::prelude::*;
use crate::mxml::{
    ElemAttribute, MxmlElement, MxmlElementView, attribute_children_view, attributes_view,
    children_view,
};
use crate::namespaces::{NamespaceDecl, declarations_view};

verus! {

/// One event for an XML writer.
#[derive(Debug, PartialEq)]
pub enum WriterEvent {
    /// The start of an element, with its attributes and the namespaces that
    /// it declares.
    StartElement {
        prefix: Option<String>,
        local_name: String,
        attributes: Vec<ElemAttribute>,
        namespaces: Vec<NamespaceDecl>,
    },
    /// The end of the element that was started last and has not ended.
    EndElement,
}

/// An event as a mathematical value.
pub enum WriterEventView {
    StartElement {
        prefix: Option<Seq<char>>,
        local_name: Seq<char>,
        attributes: Seq<(Seq<char>, Seq<char>)>,
        namespaces: Seq<(Seq<char>, Seq<char>)>,
    },
    EndElement,
}

impl View for WriterEvent {
    type V = WriterEventView;

    open spec fn view(&self) -> WriterEventView {
        match *self {
            WriterEvent::StartElement {
                prefix,
                local_name,
                attributes,
                namespaces,
            } => WriterEventView::StartElement {
                prefix: match prefix {
                    Some(p) => Some(p@),
                    None => None,
                },
                local_name: local_name@,
                attributes: attributes_view(attributes),
                namespaces: declarations_view(namespaces),
            },
            WriterEvent::EndElement => WriterEventView::EndElement,
        }
    }
}

/// The events of a list, each as a mathematical value.
pub open spec fn events_view(events: Vec<WriterEvent>) -> Seq<WriterEventView> {
    Seq::new(events.len() as nat, |i: int| events[i]@)
}

/// The events of an element: its start with its prefix, name and attributes
/// and with the namespaces `declarations`; the events of its children in
/// order; those of its attribute children in order; its end.
pub open spec fn spec_element_events(
    element: MxmlElementView,
    declarations: Seq<(Seq<char>, Seq<char>)>,
) -> Seq<WriterEventView>
    decreases element, 1nat,
{
    seq![
        WriterEventView::StartElement {
            prefix: Some(element.namespace),
            local_name: element.class_name,
            attributes: element.attributes,
            namespaces: declarations,
        },
    ] + spec_children_events(element.children, element.children.len())
        + spec_attribute_children_events(
        element.attribute_children,
        element.attribute_children.len(),
    ) + seq![WriterEventView::EndElement]
}

/// The events of the first `count` elements of `children`, none of which
/// declares a namespace.
pub open spec fn spec_children_events(children: Seq<MxmlElementView>, count: nat) -> Seq<
    WriterEventView,
>
    decreases children, count,
{
    if count == 0 || count > children.len() {
        Seq::empty()
    } else {
        spec_children_events(children, (count - 1) as nat) + spec_element_events(
            children[count - 1],
            Seq::empty(),
        )
    }
}

/// The events of one attribute child: the start of an element named by the
/// qualified property name, without prefix, attributes or namespaces; the
/// events of the nested element; the end.
pub open spec fn spec_attribute_child_events(child: (Seq<char>, MxmlElementView)) -> Seq<
    WriterEventView,
>
    decreases child, 2nat,
{
    seq![
        WriterEventView::StartElement {
            prefix: None,
            local_name: child.0,
            attributes: Seq::empty(),
            namespaces: Seq::empty(),
        },
    ] + spec_element_events(child.1, Seq::empty()) + seq![WriterEventView::EndElement]
}

/// The events of the first `count` attribute children of `children`.
pub open spec fn spec_attribute_children_events(
    children: Seq<(Seq<char>, MxmlElementView)>,
    count: nat,
) -> Seq<WriterEventView>
    decreases children, count,
{
    if count == 0 || count > children.len() {
        Seq::empty()
    } else {
        spec_attribute_children_events(children, (count - 1) as nat) + spec_attribute_child_events(
            children[count - 1],
        )
    }
}

/// How many more elements a run of events starts than it ends.
pub open spec fn spec_open_elements(events: Seq<WriterEventView>) -> int
    decreases events.len(),
{
    if events.len() == 0 {
        0
    } else if events.last() is StartElement {
        spec_open_elements(events.drop_last()) + 1
    } else {
        spec_open_elements(events.drop_last()) - 1
    }
}

/// Whether every end in a run of events ends an element: before it more
/// elements have started than ended.
pub open spec fn spec_ends_are_matched(events: Seq<WriterEventView>) -> bool {
    forall|k: int|
        0 <= k < events.len() && (#[trigger] events[k]) is EndElement ==> spec_open_elements(
            events.take(k),
        ) > 0
}

/// Two runs of events, one after the other, leave open what each of them
/// leaves open.
pub proof fn lemma_open_elements_add(first: Seq<WriterEventView>, second: Seq<WriterEventView>)
    ensures
        spec_open_elements(first + second) == spec_open_elements(first) + spec_open_elements(
            second,
        ),
    decreases second.len(),
{
    if second.len() == 0 {
        assert(first + second =~= first);
    } else {
        lemma_open_elements_add(first, second.drop_last());
        assert((first + second).drop_last() =~= first + second.drop_last());
    }
}

/// Two runs of events whose ends are matched, the first of which ends no
/// more elements than it starts, have their ends matched one after the
/// other.
pub proof fn lemma_matched_ends_add(first: Seq<WriterEventView>, second: Seq<WriterEventView>)
    requires
        spec_ends_are_matched(first),
        spec_ends_are_matched(second),
        spec_open_elements(first) >= 0,
    ensures
        spec_ends_are_matched(first + second),
{
    let both = first + second;
    assert forall|k: int| 0 <= k < both.len() && (#[trigger] both[k]) is EndElement implies
        spec_open_elements(both.take(k)) > 0 by {
        if k < first.len() {
            assert(both.take(k) =~= first.take(k));
            assert(first[k] is EndElement);
        } else {
            let at = k - first.len();
            assert(both.take(k) =~= first + second.take(at));
            assert(second[at] is EndElement);
            lemma_open_elements_add(first, second.take(at));
        }
    }
}

/// A run of events that leaves nothing open and whose ends are matched,
/// between a start and an end, is again such a run.
pub proof fn lemma_matched_ends_wrap(start: WriterEventView, inner: Seq<WriterEventView>)
    requires
        start is StartElement,
        spec_ends_are_matched(inner),
        spec_open_elements(inner) == 0,
    ensures
        spec_ends_are_matched(seq![start] + inner + seq![WriterEventView::EndElement]),
        spec_open_elements(seq![start] + inner + seq![WriterEventView::EndElement]) == 0,
{
    let opening = seq![start];
    let closing = seq![WriterEventView::EndElement];
    assert(opening.drop_last() =~= Seq::empty());
    assert(closing.drop_last() =~= Seq::empty());
    assert(spec_open_elements(Seq::<WriterEventView>::empty()) == 0);
    assert(opening.last() == start);
    assert(spec_open_elements(opening) == 1);
    assert(spec_open_elements(closing) == -1);
    assert(spec_ends_are_matched(opening));
    lemma_matched_ends_add(opening, inner);
    lemma_open_elements_add(opening, inner);
    let body = opening + inner;
    let all = body + closing;
    lemma_open_elements_add(body, closing);
    assert forall|k: int| 0 <= k < all.len() && (#[trigger] all[k]) is EndElement implies
        spec_open_elements(all.take(k)) > 0 by {
        if k < body.len() {
            assert(all.take(k) =~= body.take(k));
            assert(body[k] is EndElement);
        } else {
            assert(all.take(k) =~= body);
        }
    }
}

/// The events of an element end exactly the elements that they start: every
/// end is matched and nothing is left open.
pub proof fn lemma_element_events_are_matched(
    element: MxmlElementView,
    declarations: Seq<(Seq<char>, Seq<char>)>,
)
    ensures
        spec_ends_are_matched(spec_element_events(element, declarations)),
        spec_open_elements(spec_element_events(element, declarations)) == 0,
    decreases element, 1nat,
{
    let children = spec_children_events(element.children, element.children.len());
    let nested = spec_attribute_children_events(
        element.attribute_children,
        element.attribute_children.len(),
    );
    lemma_children_events_are_matched(element.children, element.children.len());
    lemma_attribute_children_events_are_matched(
        element.attribute_children,
        element.attribute_children.len(),
    );
    lemma_matched_ends_add(children, nested);
    lemma_open_elements_add(children, nested);
    let start = WriterEventView::StartElement {
        prefix: Some(element.namespace),
        local_name: element.class_name,
        attributes: element.attributes,
        namespaces: declarations,
    };
    lemma_matched_ends_wrap(start, children + nested);
    assert(spec_element_events(element, declarations) =~= seq![start] + (children + nested)
        + seq![WriterEventView::EndElement]);
}

/// The events of the children of an element end exactly the elements that
/// they start.
proof fn lemma_children_events_are_matched(children: Seq<MxmlElementView>, count: nat)
    ensures
        spec_ends_are_matched(spec_children_events(children, count)),
        spec_open_elements(spec_children_events(children, count)) == 0,
    decreases children, count,
{
    if 0 < count <= children.len() {
        let before = spec_children_events(children, (count - 1) as nat);
        let last = spec_element_events(children[count - 1], Seq::empty());
        lemma_children_events_are_matched(children, (count - 1) as nat);
        lemma_element_events_are_matched(children[count - 1], Seq::empty());
        lemma_matched_ends_add(before, last);
        lemma_open_elements_add(before, last);
    }
}

/// The events of the attribute children of an element end exactly the
/// elements that they start.
proof fn lemma_attribute_children_events_are_matched(
    children: Seq<(Seq<char>, MxmlElementView)>,
    count: nat,
)
    ensures
        spec_ends_are_matched(spec_attribute_children_events(children, count)),
        spec_open_elements(spec_attribute_children_events(children, count)) == 0,
    decreases children, count,
{
    if 0 < count <= children.len() {
        let before = spec_attribute_children_events(children, (count - 1) as nat);
        let child = children[count - 1];
        let inner = spec_element_events(child.1, Seq::empty());
        let start = WriterEventView::StartElement {
            prefix: None,
            local_name: child.0,
            attributes: Seq::empty(),
            namespaces: Seq::empty(),
        };
        lemma_attribute_children_events_are_matched(children, (count - 1) as nat);
        lemma_element_events_are_matched(child.1, Seq::empty());
        lemma_matched_ends_wrap(start, inner);
        let last = spec_attribute_child_events(child);
        assert(last =~= seq![start] + inner + seq![WriterEventView::EndElement]);
        lemma_matched_ends_add(before, last);
        lemma_open_elements_add(before, last);
    }
}

/// A copy of a list of attributes.
pub fn clone_attributes(attributes: &Vec<ElemAttribute>) -> (r: Vec<ElemAttribute>)
    ensures
        attributes_view(r) == attributes_view(*attributes),
{
    let mut out: Vec<ElemAttribute> = Vec::new();
    let mut i: usize = 0;
    while i < attributes.len()
        invariant
            i <= attributes.len(),
            out.len() == i,
            forall|k: int| 0 <= k < i ==> out[k]@ == attributes[k]@,
        decreases attributes.len() - i,
    {
        out.push(ElemAttribute(attributes[i].0.clone(), attributes[i].1.clone()));
        i += 1;
    }
    out
}

/// Adds to `out` the events of `element`, whose start declares the
/// namespaces `declarations`.
#[verifier::loop_isolation(false)]
pub fn push_element_events(
    element: &MxmlElement,
    declarations: Vec<NamespaceDecl>,
    out: &mut Vec<WriterEvent>,
)
    ensures
        events_view(*final(out)) == events_view(*old(out)) + spec_element_events(
            element@,
            declarations_view(declarations),
        ),
    decreases *element,
{
    let ghost before = events_view(*out);
    let ghost start = WriterEventView::StartElement {
        prefix: Some(element.namespace@),
        local_name: element.class_name@,
        attributes: attributes_view(element.attributes),
        namespaces: declarations_view(declarations),
    };
    out.push(
        WriterEvent::StartElement {
            prefix: Some(element.namespace.clone()),
            local_name: element.class_name.clone(),
            attributes: clone_attributes(&element.attributes),
            namespaces: declarations,
        },
    );
    assert(events_view(*out) =~= before + seq![start]);
    let ghost children = children_view(element.children);
    let mut i: usize = 0;
    while i < element.children.len()
        invariant
            i <= element.children.len(),
            events_view(*out) == before + seq![start] + spec_children_events(children, i as nat),
        decreases element.children.len() - i,
    {
        let none: Vec<NamespaceDecl> = Vec::new();
        assert(declarations_view(none) =~= Seq::empty());
        push_element_events(&element.children[i], none, out);
        proof {
            assert(children[i as int] == element.children[i as int]@);
            assert(events_view(*out) =~= before + seq![start] + spec_children_events(
                children,
                (i + 1) as nat,
            ));
        }
        i += 1;
    }
    let ghost nested = attribute_children_view(element.attribute_children);
    let ghost middle = before + seq![start] + spec_children_events(children, children.len());
    let mut j: usize = 0;
    while j < element.attribute_children.len()
        invariant
            j <= element.attribute_children.len(),
            events_view(*out) == middle + spec_attribute_children_events(nested, j as nat),
        decreases element.attribute_children.len() - j,
    {
        let child = &element.attribute_children[j];
        let ghost sofar = events_view(*out);
        let ghost opening = WriterEventView::StartElement {
            prefix: None,
            local_name: child.0@,
            attributes: Seq::empty(),
            namespaces: Seq::empty(),
        };
        let attributes: Vec<ElemAttribute> = Vec::new();
        let namespaces: Vec<NamespaceDecl> = Vec::new();
        proof {
            assert(attributes_view(attributes) =~= Seq::empty());
            assert(declarations_view(namespaces) =~= Seq::empty());
        }
        out.push(
            WriterEvent::StartElement {
                prefix: None,
                local_name: child.0.clone(),
                attributes,
                namespaces,
            },
        );
        assert(events_view(*out) =~= sofar + seq![opening]);
        let none: Vec<NamespaceDecl> = Vec::new();
        assert(declarations_view(none) =~= Seq::empty());
        push_element_events(&child.1, none, out);
        let ghost inner = events_view(*out);
        out.push(WriterEvent::EndElement);
        proof {
            assert(nested[j as int] == (child.0@, child.1@));
            assert(events_view(*out) =~= inner + seq![WriterEventView::EndElement]);
            assert(events_view(*out) =~= sofar + spec_attribute_child_events(nested[j as int]));
            assert(events_view(*out) =~= middle + spec_attribute_children_events(
                nested,
                (j + 1) as nat,
            ));
        }
        j += 1;
    }
    let ghost body = events_view(*out);
    out.push(WriterEvent::EndElement);
    assert(events_view(*out) =~= body + seq![WriterEventView::EndElement]);
    assert(events_view(*out) =~= before + spec_element_events(
        element@,
        declarations_view(declarations),
    ));
}

} // verus!
