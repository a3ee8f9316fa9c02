//! A descriptor as a list of tokens, and the attributes of a tag.

use vstd::prelude::*;
use crate::events::{
    open_document, pair_views, pending_xml_events, read_event, xml_events, XmlOutcome, XmlToken,
    XmlTokenView,
};
use crate::process::{EpubError, EpubErrorView};
use crate::text::same_text;

verus! {

/// The view of each token.
pub open spec fn token_views(tokens: Seq<XmlToken>) -> Seq<XmlTokenView> {
    Seq::new(tokens.len(), |i: int| tokens[i]@)
}

/// `tokens` in front of what may follow them.
pub open spec fn preceded(tokens: Seq<XmlTokenView>, rest: Option<Seq<XmlTokenView>>) -> Option<
    Seq<XmlTokenView>,
> {
    match rest {
        Some(rest) => Some(tokens + rest),
        None => None,
    }
}

/// The tokens that a run of reads gives, up to the end of the document;
/// nothing where a read fails.
pub open spec fn document_tokens(events: Seq<XmlOutcome>) -> Option<Seq<XmlTokenView>>
    decreases events.len(),
{
    if events.len() == 0 {
        Some(Seq::empty())
    } else {
        match events[0] {
            XmlOutcome::Failure => None,
            XmlOutcome::Token(XmlTokenView::End) => Some(Seq::empty()),
            XmlOutcome::Token(token) => preceded(seq![token], document_tokens(events.drop_first())),
        }
    }
}

/// The tokens of the descriptor `bytes`, without the token that ends it. A
/// descriptor that is not well-formed XML, at whatever place, is rejected.
pub fn read_document(bytes: &[u8]) -> (res: Result<Vec<XmlToken>, EpubError>)
    ensures
        match document_tokens(xml_events(bytes@)) {
            Some(tokens) => res matches Ok(found) && token_views(found@) == tokens,
            None => res matches Err(e) && e@ == EpubErrorView::MalformedXml,
        },
{
    let mut reader = open_document(bytes);
    let mut found: Vec<XmlToken> = Vec::new();
    assert(preceded(token_views(found@), document_tokens(pending_xml_events(reader)))
        =~= document_tokens(xml_events(bytes@))) by {
        let rest = document_tokens(pending_xml_events(reader));
        if let Some(r) = rest {
            assert(token_views(found@) + r =~= r);
        }
    }
    loop
        invariant
            preceded(token_views(found@), document_tokens(pending_xml_events(reader)))
                == document_tokens(xml_events(bytes@)),
        decreases pending_xml_events(reader).len(),
    {
        let ghost before = token_views(found@);
        match read_event(&mut reader) {
            Err(_) => {
                return Err(EpubError::MalformedXml);
            },
            Ok(token) => {
                if let XmlToken::End = token {
                    assert(before + Seq::<XmlTokenView>::empty() =~= before);
                    return Ok(found);
                }
                let ghost view = token@;
                found.push(token);
                proof {
                    assert(token_views(found@) =~= before.push(view));
                    let rest = document_tokens(pending_xml_events(reader));
                    if let Some(r) = rest {
                        assert(before + (seq![view] + r) =~= before.push(view) + r);
                    }
                }
            },
        }
    }
}

/// The attributes of a tag as plain values: local names with their values.
pub type AttributeViews = Seq<(Seq<char>, Seq<char>)>;

/// The value of the first attribute named `word`, if there is one.
pub open spec fn attribute_of(attributes: AttributeViews, word: Seq<char>) -> Option<Seq<char>>
    decreases attributes.len(),
{
    if attributes.len() == 0 {
        None
    } else if attributes[0].0 == word {
        Some(attributes[0].1)
    } else {
        attribute_of(attributes.drop_first(), word)
    }
}

/// The value of the attribute `word` among `attributes`.
pub fn read_attribute(attributes: &[(String, String)], word: &str) -> (value: Option<String>)
    ensures
        match attribute_of(pair_views(attributes@), word@) {
            Some(text) => value matches Some(v) && v@ == text,
            None => value is None,
        },
{
    let ghost views = pair_views(attributes@);
    let mut i: usize = 0;
    assert(views.skip(0) =~= views);
    while i < attributes.len()
        invariant
            i <= attributes.len(),
            views == pair_views(attributes@),
            attribute_of(views.skip(i as int), word@) == attribute_of(views, word@),
        decreases attributes.len() - i,
    {
        assert(views.skip(i as int).drop_first() =~= views.skip(i + 1));
        assert(views.skip(i as int)[0] == views[i as int]);
        if same_text(attributes[i].0.as_str(), word) {
            return Some(attributes[i].1.clone());
        }
        i += 1;
    }
    None
}

} // verus!
