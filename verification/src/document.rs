//! The TOML document of `toml_edit` that the metadata of a book is written
//! into. Verus sees nothing inside it: the fields that a document holds have
//! a name, and each call that the library makes says over that name what it
//! does to them.

use vstd::prelude::*;
use toml_edit::DocumentMut;

verus! {

/// `toml_edit::DocumentMut`, opaque to the verifier.
#[verifier::external_type_specification]
#[verifier::external_body]
pub struct ExDocumentMut(toml_edit::DocumentMut);

/// The value of a field: a text or a list of texts.
pub enum FieldValue {
    Text(Seq<char>),
    List(Seq<Seq<char>>),
}

/// Keys with their values, in the order in which they are written out.
pub type Fields = Seq<(Seq<char>, FieldValue)>;

/// The fields after `key` has been given `value`: a key that is there keeps
/// its place and loses its old value, a new key goes to the end.
pub open spec fn assigned(fields: Fields, key: Seq<char>, value: FieldValue) -> Fields
    decreases fields.len(),
{
    if fields.len() == 0 {
        seq![(key, value)]
    } else if fields[0].0 == key {
        fields.update(0, (key, value))
    } else {
        seq![fields[0]] + assigned(fields.drop_first(), key, value)
    }
}

/// The characters of each string.
pub open spec fn list_view(items: Seq<String>) -> Seq<Seq<char>> {
    Seq::new(items.len(), |i: int| items[i]@)
}

/// The fields at the root of a document.
pub uninterp spec fn document_fields(doc: DocumentMut) -> Fields;

/// The TOML text of a document that was made field by field and holds these
/// fields.
pub uninterp spec fn toml_text(fields: Fields) -> Seq<char>;

/// `DocumentMut::new`: a document without fields.
#[verifier::external_body]
pub(crate) fn new_document() -> (doc: DocumentMut)
    ensures
        document_fields(doc).len() == 0,
{
    DocumentMut::new()
}

/// An assignment through `IndexMut` of a `DocumentMut`, with a string made by
/// `toml_edit::value`: the key gets the text as its value, in the place it
/// had or, if it is new, behind all others.
#[verifier::external_body]
pub(crate) fn set_text(doc: &mut DocumentMut, key: &str, text: &str)
    ensures
        document_fields(*final(doc)) == assigned(document_fields(*old(doc)), key@, FieldValue::Text(text@)),
{
    doc[key] = toml_edit::value(text);
}

/// An assignment through `IndexMut` of a `DocumentMut`, with an array that
/// `Array::from_iter` makes of the strings: the key gets the list as its
/// value, in the place it had or, if it is new, behind all others.
#[verifier::external_body]
pub(crate) fn set_list(doc: &mut DocumentMut, key: &str, items: &Vec<String>)
    ensures
        document_fields(*final(doc)) == assigned(document_fields(*old(doc)), key@, FieldValue::List(list_view(items@))),
{
    doc[key] = toml_edit::value(toml_edit::Array::from_iter(items));
}

/// `DocumentMut::to_string`. The contract only names its result.
#[verifier::external_body]
pub(crate) fn document_text(doc: &DocumentMut) -> (text: String)
    ensures
        text@ == toml_text(document_fields(*doc)),
{
    doc.to_string()
}

} // verus!
