//! From the bytes of a container's entries to chapter paths, metadata and
//! chapters.

use vstd::prelude::*;
use vstd::slice::slice_to_vec;
use vstd::utf8::{decode_utf8, encode_utf8, valid_utf8};
use crate::markup::{
    attribute_views, markup_events, open_reader, pending_events, read_token, MarkupToken,
    RawAttribute, ReadOutcome, TokenView,
};
use crate::text::{same_bytes, utf8_text};

pub mod chapter;
pub mod metadata;
pub mod opf;
pub mod tokens;

verus! {

/// Why a book, or one of its chapters, is rejected.
#[derive(Debug, PartialEq, Eq)]
pub enum EpubError {
    /// The bootstrap file names no package descriptor.
    DescriptorNotFound,
    /// The bootstrap file or the package descriptor cannot be tokenized, or an
    /// attribute that is read from it cannot be decoded.
    MalformedXml,
    /// The spine refers to a document that the manifest does not offer as a
    /// chapter.
    MissingChapterReference { id: String },
    /// A chapter cannot be tokenized, or holds a reference that stands for
    /// nothing.
    MalformedMarkup,
}

/// An error as plain values.
pub enum EpubErrorView {
    DescriptorNotFound,
    MalformedXml,
    MissingChapterReference { id: Seq<char> },
    MalformedMarkup,
}

impl View for EpubError {
    type V = EpubErrorView;

    open spec fn view(&self) -> EpubErrorView {
        match *self {
            EpubError::DescriptorNotFound => EpubErrorView::DescriptorNotFound,
            EpubError::MalformedXml => EpubErrorView::MalformedXml,
            EpubError::MissingChapterReference { id } => EpubErrorView::MissingChapterReference {
                id: id@,
            },
            EpubError::MalformedMarkup => EpubErrorView::MalformedMarkup,
        }
    }
}

/// The `full-path` among the attributes of a tag, read in order: nothing
/// where the tag has none; the tag is rejected where an attribute in front of
/// it cannot be read, or where its value is no text.
pub open spec fn full_path_of(attributes: Seq<Option<(Seq<u8>, Seq<u8>)>>) -> Result<
    Option<Seq<char>>,
    EpubErrorView,
>
    decreases attributes.len(),
{
    if attributes.len() == 0 {
        Ok(None)
    } else {
        match attributes[0] {
            None => Err(EpubErrorView::MalformedXml),
            Some(pair) => if pair.0 == encode_utf8("full-path"@) {
                if valid_utf8(pair.1) {
                    Ok(Some(decode_utf8(pair.1)))
                } else {
                    Err(EpubErrorView::MalformedXml)
                }
            } else {
                full_path_of(attributes.drop_first())
            },
        }
    }
}

/// The `full-path` among the attributes of a tag.
pub fn read_full_path(attributes: &[RawAttribute]) -> (res: Result<Option<String>, EpubError>)
    ensures
        match full_path_of(attribute_views(attributes@)) {
            Ok(Some(path)) => res matches Ok(Some(p)) && p@ == path,
            Ok(None) => res matches Ok(None),
            Err(e) => res matches Err(err) && err@ == e,
        },
{
    let ghost views = attribute_views(attributes@);
    let mut i: usize = 0;
    assert(views.skip(0) =~= views);
    while i < attributes.len()
        invariant
            i <= attributes.len(),
            views == attribute_views(attributes@),
            full_path_of(views.skip(i as int)) == full_path_of(views),
        decreases attributes.len() - i,
    {
        assert(views.skip(i as int).drop_first() =~= views.skip(i + 1));
        assert(views.skip(i as int)[0] == views[i as int]);
        match &attributes[i] {
            None => {
                return Err(EpubError::MalformedXml);
            },
            Some(pair) => {
                if same_bytes(pair.0.as_slice(), "full-path".as_bytes()) {
                    return match utf8_text(slice_to_vec(pair.1.as_slice())) {
                        Some(path) => Ok(Some(path)),
                        None => Err(EpubError::MalformedXml),
                    };
                }
            },
        }
        i += 1;
    }
    Ok(None)
}

/// The path of the package descriptor that a run of reads of the bootstrap
/// file gives: the `full-path` of the first `rootfile` tag that has one and
/// stands inside `rootfiles`. Nothing behind that tag is read. `inside` tells
/// whether `rootfiles` is open.
pub open spec fn first_full_path(events: Seq<ReadOutcome>, inside: bool) -> Result<
    Seq<char>,
    EpubErrorView,
>
    decreases events.len(),
{
    if events.len() == 0 {
        Err(EpubErrorView::DescriptorNotFound)
    } else {
        let rest = events.drop_first();
        match events[0] {
            ReadOutcome::Failure => Err(EpubErrorView::MalformedXml),
            ReadOutcome::Token(TokenView::End) => Err(EpubErrorView::DescriptorNotFound),
            ReadOutcome::Token(TokenView::Open { name, attributes }) => {
                if name == encode_utf8("rootfiles"@) {
                    first_full_path(rest, true)
                } else if inside && name == encode_utf8("rootfile"@) {
                    match full_path_of(attributes) {
                        Err(e) => Err(e),
                        Ok(Some(path)) => Ok(path),
                        Ok(None) => first_full_path(rest, inside),
                    }
                } else {
                    first_full_path(rest, inside)
                }
            },
            ReadOutcome::Token(TokenView::Close { name }) => {
                if name == encode_utf8("rootfiles"@) {
                    first_full_path(rest, false)
                } else {
                    first_full_path(rest, inside)
                }
            },
            ReadOutcome::Token(_) => first_full_path(rest, inside),
        }
    }
}

/// The path of the package descriptor, as the bootstrap file
/// `META-INF/container.xml` with the content `container` names it. The file is
/// read token by token, and no further than the first `rootfile` tag inside
/// `rootfiles` that has a `full-path`.
pub fn extract_opf_path(container: &[u8]) -> (res: Result<String, EpubError>)
    ensures
        match first_full_path(markup_events(container@), false) {
            Ok(path) => res matches Ok(found) && found@ == path,
            Err(e) => res matches Err(err) && err@ == e,
        },
{
    let mut reader = open_reader(container);
    let mut inside = false;
    loop
        invariant
            first_full_path(pending_events(reader), inside) == first_full_path(
                markup_events(container@),
                false,
            ),
        decreases pending_events(reader).len(),
    {
        match read_token(&mut reader) {
            Err(_) => {
                return Err(EpubError::MalformedXml);
            },
            Ok(token) => {
                match token {
                    MarkupToken::End => {
                        return Err(EpubError::DescriptorNotFound);
                    },
                    MarkupToken::Open { name, attributes } => {
                        if same_bytes(name.as_slice(), "rootfiles".as_bytes()) {
                            inside = true;
                        } else if inside && same_bytes(name.as_slice(), "rootfile".as_bytes()) {
                            match read_full_path(attributes.as_slice()) {
                                Err(e) => {
                                    return Err(e);
                                },
                                Ok(Some(path)) => {
                                    return Ok(path);
                                },
                                Ok(None) => {},
                            }
                        }
                    },
                    MarkupToken::Close { name } => {
                        if same_bytes(name.as_slice(), "rootfiles".as_bytes()) {
                            inside = false;
                        }
                    },
                    _ => {},
                }
            },
        }
    }
}

} // verus!
