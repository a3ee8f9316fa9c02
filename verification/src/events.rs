//! The tokens of an XML descriptor, as the `xml` crate reads them from a slice
//! of bytes: names without their namespace prefix, attribute values and text
//! with every reference resolved. What is trusted here is how those values
//! come out of the outside reader.

use vstd::prelude::*;
use xml::reader::{EventReader, XmlEvent};

verus! {

/// An `EventReader` over a slice of bytes. Verus cannot take the reader's
/// own type, whose parameter is bound by `std::io::Read`, so it is held here.
#[verifier::external_body]
pub struct DescriptorReader<'a> {
    inner: EventReader<&'a [u8]>,
}

/// `xml::reader::Error`, opaque to the verifier.
#[verifier::external_type_specification]
#[verifier::external_body]
pub struct ExXmlError(xml::reader::Error);

/// One token of a descriptor.
#[derive(Debug, PartialEq, Eq)]
pub enum XmlToken {
    /// An opening tag: its local name, and its attributes as pairs of local
    /// name and value.
    Open { name: String, attributes: Vec<(String, String)> },
    /// A closing tag: its local name.
    Close { name: String },
    /// Text that is not only white space.
    Text { text: String },
    /// Anything else: the start of the document, white space, a comment, a
    /// processing instruction, a character-data section.
    Other,
    /// The end of the document.
    End,
}

/// A token as plain values.
pub enum XmlTokenView {
    Open { name: Seq<char>, attributes: Seq<(Seq<char>, Seq<char>)> },
    Close { name: Seq<char> },
    Text { text: Seq<char> },
    Other,
    End,
}

/// The attributes of a tag as plain values.
pub open spec fn pair_views(attributes: Seq<(String, String)>) -> Seq<(Seq<char>, Seq<char>)> {
    Seq::new(attributes.len(), |i: int| (attributes[i].0@, attributes[i].1@))
}

impl View for XmlToken {
    type V = XmlTokenView;

    open spec fn view(&self) -> XmlTokenView {
        match *self {
            XmlToken::Open { name, attributes } => XmlTokenView::Open {
                name: name@,
                attributes: pair_views(attributes@),
            },
            XmlToken::Close { name } => XmlTokenView::Close { name: name@ },
            XmlToken::Text { text } => XmlTokenView::Text { text: text@ },
            XmlToken::Other => XmlTokenView::Other,
            XmlToken::End => XmlTokenView::End,
        }
    }
}

/// What one read of the outside reader gives: a token, or a failure to parse.
pub enum XmlOutcome {
    Token(XmlTokenView),
    Failure,
}

/// The outcome that a read has given.
pub open spec fn xml_outcome_of(res: Result<XmlToken, xml::reader::Error>) -> XmlOutcome {
    match res {
        Ok(token) => XmlOutcome::Token(token@),
        Err(_) => XmlOutcome::Failure,
    }
}

/// What the reader gives for a descriptor, read after read, up to and
/// including the end of the document or the first failure.
pub uninterp spec fn xml_events(bytes: Seq<u8>) -> Seq<XmlOutcome>;

/// What is left of `xml_events` for a reader that has been read from.
pub uninterp spec fn pending_xml_events(reader: DescriptorReader) -> Seq<XmlOutcome>;

/// `EventReader::new` on a slice. The contract only names what the new reader
/// will give.
#[verifier::external_body]
pub(crate) fn open_document<'a>(bytes: &'a [u8]) -> (reader: DescriptorReader<'a>)
    ensures
        pending_xml_events(reader) == xml_events(bytes@),
{
    DescriptorReader { inner: EventReader::new(bytes) }
}

/// `EventReader::next`, its event turned into an `XmlToken`: a name is the
/// `local_name` of the event's name, an attribute is the `local_name` of its
/// name with its `value`, text is what a `Characters` event holds. The
/// contract says that the result is the first of the pending outcomes, and
/// that an ordinary token leaves the others pending.
#[verifier::external_body]
pub(crate) fn read_event<'a>(reader: &mut DescriptorReader<'a>) -> (res: Result<XmlToken, xml::reader::Error>)
    ensures
        pending_xml_events(*old(reader)).len() > 0,
        xml_outcome_of(res) == pending_xml_events(*old(reader))[0],
        (res matches Ok(token) && !(token is End)) ==> pending_xml_events(*final(reader))
            == pending_xml_events(*old(reader)).drop_first(),
{
    Ok(match reader.inner.next()? {
        XmlEvent::StartElement { name, attributes, .. } => XmlToken::Open {
            name: name.local_name,
            attributes: attributes.into_iter().map(|a| (a.name.local_name, a.value)).collect(),
        },
        XmlEvent::EndElement { name } => XmlToken::Close { name: name.local_name },
        XmlEvent::Characters(text) => XmlToken::Text { text },
        XmlEvent::EndDocument => XmlToken::End,
        _ => XmlToken::Other,
    })
}

} // verus!
