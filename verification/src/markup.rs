//! The tokens of a markup document, as `quick_xml` reads them from a slice of
//! bytes. The parsers of this library work on `MarkupToken` values; what is
//! trusted here is how those values come out of the outside reader.

use vstd::prelude::*;
use quick_xml::events::Event;
use quick_xml::Reader;

verus! {

/// `quick_xml::Reader`, opaque to the verifier.
#[verifier::external_type_specification]
#[verifier::external_body]
#[verifier::reject_recursive_types(R)]
pub struct ExReader<R>(quick_xml::Reader<R>);

/// `quick_xml::Error`, opaque to the verifier.
#[verifier::external_type_specification]
#[verifier::external_body]
pub struct ExMarkupError(quick_xml::Error);

/// `quick_xml::escape::EscapeError`, opaque to the verifier.
#[verifier::external_type_specification]
#[verifier::external_body]
pub struct ExEscapeError(quick_xml::escape::EscapeError);

/// One attribute of an opening tag: its key and its value as written in the
/// document, or nothing where the attribute could not be read.
pub type RawAttribute = Option<(Vec<u8>, Vec<u8>)>;

/// One token of a markup document.
#[derive(Debug, PartialEq, Eq)]
pub enum MarkupToken {
    /// An opening tag. A self-closing tag is an opening tag followed by its
    /// closing tag.
    Open { name: Vec<u8>, attributes: Vec<RawAttribute> },
    /// A closing tag.
    Close { name: Vec<u8> },
    /// A piece of text between two tags or references.
    Text { text: String },
    /// A reference such as `&amp;`: what stands between `&` and `;`.
    Reference { entity: String },
    /// A comment, a declaration, a processing instruction, a document type or
    /// a character-data section.
    Other,
    /// The end of the document.
    End,
}

/// A token as plain values.
pub enum TokenView {
    Open { name: Seq<u8>, attributes: Seq<Option<(Seq<u8>, Seq<u8>)>> },
    Close { name: Seq<u8> },
    Text { text: Seq<char> },
    Reference { entity: Seq<char> },
    Other,
    End,
}

/// The attributes of a tag as plain values.
pub open spec fn attribute_views(attributes: Seq<RawAttribute>) -> Seq<Option<(Seq<u8>, Seq<u8>)>> {
    Seq::new(
        attributes.len(),
        |i: int|
            match attributes[i] {
                Some(pair) => Some((pair.0@, pair.1@)),
                None => None,
            },
    )
}

impl View for MarkupToken {
    type V = TokenView;

    open spec fn view(&self) -> TokenView {
        match *self {
            MarkupToken::Open { name, attributes } => TokenView::Open {
                name: name@,
                attributes: attribute_views(attributes@),
            },
            MarkupToken::Close { name } => TokenView::Close { name: name@ },
            MarkupToken::Text { text } => TokenView::Text { text: text@ },
            MarkupToken::Reference { entity } => TokenView::Reference { entity: entity@ },
            MarkupToken::Other => TokenView::Other,
            MarkupToken::End => TokenView::End,
        }
    }
}

/// What one read of the outside reader gives: a token, or a failure to
/// tokenize.
pub enum ReadOutcome {
    Token(TokenView),
    Failure,
}

/// The outcome that a read has given.
pub open spec fn outcome_of(res: Result<MarkupToken, quick_xml::Error>) -> ReadOutcome {
    match res {
        Ok(token) => ReadOutcome::Token(token@),
        Err(_) => ReadOutcome::Failure,
    }
}

/// What the reader gives for a document, read after read, up to and including
/// the end of the document or the first failure.
pub uninterp spec fn markup_events(bytes: Seq<u8>) -> Seq<ReadOutcome>;

/// What is left of `markup_events` for a reader that has been read from.
pub uninterp spec fn pending_events(reader: Reader<&[u8]>) -> Seq<ReadOutcome>;

/// What `quick_xml::escape::unescape` makes of a text: the text with every
/// reference replaced by what it stands for, or nothing where a reference is
/// unknown or not closed.
pub uninterp spec fn unescaped(raw: Seq<char>) -> Option<Seq<char>>;

/// `Reader::from_reader` on a slice, set up as every parser of this library
/// reads: text is not trimmed, a lone `&` is text, a closing tag is held
/// neither against the name of the tag it closes nor against there being one,
/// and a self-closing tag is read as an opening and a closing tag. The
/// contract only names what the new reader will give.
#[verifier::external_body]
pub(crate) fn open_reader<'a>(bytes: &'a [u8]) -> (reader: Reader<&'a [u8]>)
    ensures
        pending_events(reader) == markup_events(bytes@),
{
    let mut reader = Reader::from_reader(bytes);
    let config = reader.config_mut();
    config.trim_text(false);
    config.allow_dangling_amp = true;
    config.check_end_names = false;
    config.allow_unmatched_ends = true;
    config.expand_empty_elements = true;
    reader
}

/// `Reader::read_event`, its event turned into a `MarkupToken`: names,
/// attribute keys and attribute values are the bytes of the document, the text
/// is what `BytesText::html_content` decodes (line ends made uniform,
/// references untouched), a reference is what `BytesRef::decode` gives. The
/// contract says that the result is the first of the pending outcomes, and
/// that an ordinary token leaves the others pending.
#[verifier::external_body]
pub(crate) fn read_token<'a>(reader: &mut Reader<&'a [u8]>) -> (res: Result<MarkupToken, quick_xml::Error>)
    ensures
        pending_events(*old(reader)).len() > 0,
        outcome_of(res) == pending_events(*old(reader))[0],
        (res matches Ok(token) && !(token is End)) ==> pending_events(*final(reader))
            == pending_events(*old(reader)).drop_first(),
{
    Ok(match reader.read_event()? {
        Event::Start(e) => MarkupToken::Open {
            name: e.name().as_ref().to_vec(),
            attributes: e.attributes().map(|a| a.ok().map(|a| (a.key.as_ref().to_vec(), a.value.into_owned()))).collect(),
        },
        Event::End(e) => MarkupToken::Close { name: e.name().as_ref().to_vec() },
        Event::Text(t) => MarkupToken::Text { text: t.html_content()?.into_owned() },
        Event::GeneralRef(r) => MarkupToken::Reference { entity: r.decode()?.into_owned() },
        Event::Eof => MarkupToken::End,
        _ => MarkupToken::Other,
    })
}

/// `quick_xml::escape::unescape`. The contract only names its result.
#[verifier::external_body]
pub(crate) fn unescape(raw: &str) -> (res: Result<String, quick_xml::escape::EscapeError>)
    ensures
        res is Ok <==> unescaped(raw@) is Some,
        res matches Ok(text) ==> unescaped(raw@) == Some(text@),
{
    Ok(quick_xml::escape::unescape(raw)?.into_owned())
}

} // verus!
