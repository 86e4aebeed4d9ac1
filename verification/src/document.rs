//! A reconstructed document and its writing.

use vstd::prelude::*;
use vstd::utf8::{decode_utf8, valid_utf8};
use crate::emit::{EmitError, document_text, spec_rendered, write_events};
use crate::events::{
    WriterEvent, WriterEventView, events_view, lemma_element_events_are_matched,
    push_element_events, spec_attribute_child_events, spec_element_events,
};
use crate::mxml::{AttributeChild, ElemAttribute, MxmlElement, MxmlElementView, attributes_view};
use crate::namespaces::{NamespaceDecl, NamespaceRegistry, declarations_view, spec_declarations};

verus! {

/// A reconstructed document: its root element and the namespaces that were
/// registered while it was built.
pub struct MxmlDoc {
    pub root: MxmlElement,
    pub namespaces: NamespaceRegistry,
}

/// A document as a mathematical value: its root and the registered package
/// paths in the order of their registration.
pub struct MxmlDocView {
    pub root: MxmlElementView,
    pub namespaces: Seq<Seq<Seq<char>>>,
}

impl View for MxmlDoc {
    type V = MxmlDocView;

    open spec fn view(&self) -> MxmlDocView {
        MxmlDocView { root: self.root@, namespaces: self.namespaces@ }
    }
}

/// The events of a document: those of its root, whose start declares every
/// namespace of the document, the framework namespaces first and then the
/// registered ones in the order of their registration. The list may hold one
/// prefix more than once: two registered paths with the same last segment
/// have the same prefix, and so has a path whose last segment is `fx`, `s` or
/// `mx` with the framework namespace of that prefix.
pub open spec fn spec_document_events(doc: MxmlDocView) -> Seq<WriterEventView> {
    spec_element_events(doc.root, spec_declarations(doc.namespaces))
}

/// What can be written out as a run of events inside a document.
pub trait WriterEvents {
    /// The events that the value is written as.
    spec fn spec_writer_events(&self) -> Seq<WriterEventView>;

    /// The events that the value is written as, in order.
    fn get_writer_events(&self) -> (r: Vec<WriterEvent>)
        ensures
            events_view(r) == self.spec_writer_events(),
    ;
}

impl WriterEvents for MxmlElement {
    /// The events of the element, which declares no namespace.
    open spec fn spec_writer_events(&self) -> Seq<WriterEventView> {
        spec_element_events(self@, Seq::empty())
    }

    fn get_writer_events(&self) -> (r: Vec<WriterEvent>) {
        let mut out: Vec<WriterEvent> = Vec::new();
        let none: Vec<NamespaceDecl> = Vec::new();
        assert(declarations_view(none) =~= Seq::empty());
        assert(events_view(out) =~= Seq::empty());
        push_element_events(self, none, &mut out);
        out
    }
}

impl WriterEvents for AttributeChild {
    /// An element named by the qualified property name, around the events of
    /// the nested element.
    open spec fn spec_writer_events(&self) -> Seq<WriterEventView> {
        spec_attribute_child_events(self@)
    }

    fn get_writer_events(&self) -> (r: Vec<WriterEvent>) {
        let mut out: Vec<WriterEvent> = Vec::new();
        let attributes: Vec<ElemAttribute> = Vec::new();
        let namespaces: Vec<NamespaceDecl> = Vec::new();
        let none: Vec<NamespaceDecl> = Vec::new();
        assert(attributes_view(attributes) =~= Seq::empty());
        assert(declarations_view(namespaces) =~= Seq::empty());
        assert(declarations_view(none) =~= Seq::empty());
        out.push(
            WriterEvent::StartElement {
                prefix: None,
                local_name: self.0.clone(),
                attributes,
                namespaces,
            },
        );
        let ghost opening = events_view(out);
        push_element_events(&self.1, none, &mut out);
        let ghost inner = events_view(out);
        out.push(WriterEvent::EndElement);
        assert(events_view(out) =~= inner + seq![WriterEventView::EndElement]);
        assert(opening =~= seq![
            WriterEventView::StartElement {
                prefix: None,
                local_name: self.0@,
                attributes: Seq::empty(),
                namespaces: Seq::empty(),
            },
        ]);
        assert(events_view(out) =~= self.spec_writer_events());
        out
    }
}

impl MxmlDoc {
    /// The events that the document is written as, in order.
    pub fn writer_events(&self) -> (r: Vec<WriterEvent>)
        requires
            self.namespaces.wf(),
        ensures
            events_view(r) == spec_document_events(self@),
    {
        let mut out: Vec<WriterEvent> = Vec::new();
        assert(events_view(out) =~= Seq::empty());
        let declarations = self.namespaces.declarations();
        push_element_events(&self.root, declarations, &mut out);
        out
    }

    /// Writes the document as indented XML text: the text of the bytes that
    /// the XML writer makes of the document's events. The writer refuses none
    /// of them, so the only failure is `InvalidUtf8`, where what it wrote is
    /// no UTF-8.
    ///
    /// The declarations of the root stand in the event in the order of their
    /// registration, the framework namespaces first. The text does not keep
    /// that order: the writer binds each prefix once, to the URI that comes
    /// first for it in the event, and writes the bindings sorted by prefix.
    /// Where the event holds one prefix more than once, the text has one
    /// binding for it.
    pub fn generate_mxml(&self) -> (r: Result<String, EmitError>)
        requires
            self.namespaces.wf(),
        ensures
            spec_rendered(spec_document_events(self@)) matches Some(bytes) && if valid_utf8(
                bytes,
            ) {
                r matches Ok(text) && text@ == decode_utf8(bytes)
            } else {
                r == Err::<String, EmitError>(EmitError::InvalidUtf8)
            },
    {
        let events = self.writer_events();
        proof {
            lemma_element_events_are_matched(self.root@, spec_declarations(self.namespaces@));
        }
        document_text(write_events(&events))
    }
}

} // verus!
