//! The writing of events as XML text.

use vstd::prelude::*;
use vstd::utf8::{decode_utf8, valid_utf8};
use xml::name::Name;
use xml::writer::{EmitterConfig, XmlEvent};
use crate::events::{WriterEvent, WriterEventView, events_view, spec_ends_are_matched};

verus! {

/// The error of the `xml` crate's writer.
#[verifier::external_type_specification]
#[verifier::external_body]
pub struct ExEmitterError(xml::writer::Error);

/// Why a document could not be written.
#[derive(Debug, Clone, Copy, PartialEq, Eq, Structural)]
pub enum EmitError {
    /// The sink of the writer failed.
    Io,
    /// The document declaration was written twice.
    DocumentStartAlreadyEmitted,
    /// An element ended where none was open.
    LastElementNameNotAvailable,
    /// An element ended under another name than it started.
    EndElementNameIsNotEqualToLastStartElementName,
    /// An element ended without a name where one was needed.
    EndElementNameIsNotSpecified,
    /// The writer produced bytes that are no UTF-8.
    InvalidUtf8,
}

/// The bytes that the indenting writer of the `xml` crate makes of a run of
/// events; none where it refuses one of them. The writer binds each prefix
/// that a start declares once, to the URI that comes first for it, and writes
/// the bindings sorted by prefix: the text does not keep the order in which
/// the event lists them.
pub uninterp spec fn spec_rendered(events: Seq<WriterEventView>) -> Option<Seq<u8>>;

/// `xml::writer::EventWriter::write`, once for each event in order, on a
/// writer that `xml::writer::EmitterConfig::create_writer` made to indent
/// into an empty byte vector; then `EventWriter::into_inner`. Each event is
/// handed over as the event of the `xml` crate with the same name,
/// attributes and namespaces. Two claims are made. What comes back depends
/// on the events alone: it is what `spec_rendered` names. And the writer
/// refuses no run in which every end ends an element: with a byte vector as
/// its sink it fails on these two kinds of event only where an end finds no
/// element open.
#[verifier::external_body]
fn render(events: &Vec<WriterEvent>) -> (r: Result<Vec<u8>, xml::writer::Error>)
    ensures
        r matches Ok(bytes) ==> spec_rendered(events_view(*events)) == Some(bytes@),
        r is Err ==> spec_rendered(events_view(*events)) is None,
        spec_ends_are_matched(events_view(*events)) ==> r is Ok,
{
    let mut writer = EmitterConfig::new().perform_indent(true).create_writer(Vec::new());
    for event in events {
        match event {
            WriterEvent::StartElement { prefix, local_name, attributes, namespaces } => {
                let name = Name { local_name, namespace: None, prefix: prefix.as_deref() };
                let mut start = XmlEvent::start_element(name);
                for a in attributes { start = start.attr(Name::local(&a.0), &a.1); }
                for n in namespaces { start = start.ns(n.prefix.as_str(), n.uri.as_str()); }
                writer.write(start)?
            },
            WriterEvent::EndElement => writer.write(XmlEvent::end_element())?,
        }
    }
    Ok(writer.into_inner())
}

/// Tells the variants of `xml::writer::Error` apart.
#[verifier::external_body]
fn error_kind(error: &xml::writer::Error) -> EmitError {
    match error {
        xml::writer::Error::Io(_) => EmitError::Io,
        xml::writer::Error::DocumentStartAlreadyEmitted => EmitError::DocumentStartAlreadyEmitted,
        xml::writer::Error::LastElementNameNotAvailable => EmitError::LastElementNameNotAvailable,
        xml::writer::Error::EndElementNameIsNotEqualToLastStartElementName => {
            EmitError::EndElementNameIsNotEqualToLastStartElementName
        },
        xml::writer::Error::EndElementNameIsNotSpecified => EmitError::EndElementNameIsNotSpecified,
    }
}

/// `String::from_utf8`: the string that the bytes encode, where they are
/// UTF-8, and nothing where they are not.
#[verifier::external_body]
fn utf8_text(bytes: Vec<u8>) -> (r: Option<String>)
    ensures
        r is Some <==> valid_utf8(bytes@),
        r matches Some(text) ==> text@ == decode_utf8(bytes@),
{
    String::from_utf8(bytes).ok()
}

/// Hands the events to an indenting XML writer in order and returns the
/// bytes that it wrote, or the failure of the first event that it refused.
/// It refuses none where every end ends an element.
pub fn write_events(events: &Vec<WriterEvent>) -> (r: Result<Vec<u8>, EmitError>)
    ensures
        r matches Ok(bytes) ==> spec_rendered(events_view(*events)) == Some(bytes@),
        r is Err ==> spec_rendered(events_view(*events)) is None,
        spec_ends_are_matched(events_view(*events)) ==> r is Ok,
{
    match render(events) {
        Ok(bytes) => Ok(bytes),
        Err(error) => Err(error_kind(&error)),
    }
}

/// The text of a written document: that of the bytes where the writer
/// succeeded and they are UTF-8.
pub open spec fn spec_document_text(written: Result<Vec<u8>, EmitError>) -> Result<
    Seq<char>,
    EmitError,
> {
    match written {
        Err(e) => Err(e),
        Ok(bytes) => if valid_utf8(bytes@) {
            Ok(decode_utf8(bytes@))
        } else {
            Err(EmitError::InvalidUtf8)
        },
    }
}

/// Turns what the writer produced into the text of the document.
pub fn document_text(written: Result<Vec<u8>, EmitError>) -> (r: Result<String, EmitError>)
    ensures
        match r {
            Ok(text) => spec_document_text(written) == Ok::<Seq<char>, EmitError>(text@),
            Err(e) => spec_document_text(written) == Err::<Seq<char>, EmitError>(e),
        },
{
    match written {
        Err(e) => Err(e),
        Ok(bytes) => match utf8_text(bytes) {
            Some(text) => Ok(text),
            None => Err(EmitError::InvalidUtf8),
        },
    }
}

} // verus!
