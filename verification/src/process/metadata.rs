//! What a package descriptor holds: the metadata of the book, the manifest of
//! its documents and the spine that orders them; and how the spine is resolved
//! against the manifest.

use vstd::prelude::*;
use vstd::string::StringExecFns;
use ahash::AHashMap;
use crate::document::{
    assigned, document_fields, document_text, new_document, set_list, set_text, toml_text,
    FieldValue, Fields,
};
use crate::lookup::{map_contains_key, map_entries, map_insert, map_remove, new_map};
use crate::process::{EpubError, EpubErrorView};
use crate::text::{contains, has_part, same_text};

verus! {

/// Someone who made the book, with the code of the part they had in it.
#[derive(Debug)]
pub struct Creator {
    pub name: String,
    pub role: Option<String>,
}

/// A creator as plain values.
pub struct CreatorView {
    pub name: Seq<char>,
    pub role: Option<Seq<char>>,
}

/// A text, if there is one, as its characters.
pub open spec fn text_view(text: Option<String>) -> Option<Seq<char>> {
    match text {
        Some(t) => Some(t@),
        None => None,
    }
}

impl View for Creator {
    type V = CreatorView;

    open spec fn view(&self) -> CreatorView {
        CreatorView { name: self.name@, role: text_view(self.role) }
    }
}

/// The metadata of a book.
#[derive(Debug)]
pub struct Metadata {
    pub title: Option<String>,
    pub creators: Vec<Creator>,
    pub language: Option<String>,
    pub description: Option<String>,
    pub subjects: Vec<String>,
}

/// Metadata as plain values.
pub struct MetadataView {
    pub title: Option<Seq<char>>,
    pub creators: Seq<CreatorView>,
    pub language: Option<Seq<char>>,
    pub description: Option<Seq<char>>,
    pub subjects: Seq<Seq<char>>,
}

impl View for Metadata {
    type V = MetadataView;

    open spec fn view(&self) -> MetadataView {
        MetadataView {
            title: text_view(self.title),
            creators: Seq::new(self.creators@.len(), |i: int| self.creators@[i]@),
            language: text_view(self.language),
            description: text_view(self.description),
            subjects: Seq::new(self.subjects@.len(), |i: int| self.subjects@[i]@),
        }
    }
}

/// One document of the book, as the manifest lists it.
#[derive(Debug)]
pub struct ManifestItem {
    pub id: String,
    pub href: String,
    pub media_type: String,
}

/// A document of the manifest as plain values.
pub struct ManifestItemView {
    pub id: Seq<char>,
    pub href: Seq<char>,
    pub media_type: Seq<char>,
}

impl View for ManifestItem {
    type V = ManifestItemView;

    open spec fn view(&self) -> ManifestItemView {
        ManifestItemView { id: self.id@, href: self.href@, media_type: self.media_type@ }
    }
}

/// The documents of the book.
#[derive(Debug)]
pub struct Manifest {
    pub items: Vec<ManifestItem>,
}

impl View for Manifest {
    type V = Seq<ManifestItemView>;

    open spec fn view(&self) -> Seq<ManifestItemView> {
        Seq::new(self.items@.len(), |i: int| self.items@[i]@)
    }
}

/// One place in the reading order: the id of a document of the manifest.
#[derive(Debug)]
pub struct ItemRef {
    pub idref: String,
}

/// The reading order.
#[derive(Debug)]
pub struct Spine {
    pub itemrefs: Vec<ItemRef>,
}

impl View for Spine {
    type V = Seq<Seq<char>>;

    open spec fn view(&self) -> Seq<Seq<char>> {
        Seq::new(self.itemrefs@.len(), |i: int| self.itemrefs@[i].idref@)
    }
}

/// A package descriptor.
#[derive(Debug)]
pub struct Package {
    pub metadata: Metadata,
    pub manifest: Manifest,
    pub spine: Spine,
}

/// A package as plain values.
pub struct PackageView {
    pub metadata: MetadataView,
    pub manifest: Seq<ManifestItemView>,
    pub spine: Seq<Seq<char>>,
}

impl View for Package {
    type V = PackageView;

    open spec fn view(&self) -> PackageView {
        PackageView { metadata: self.metadata@, manifest: self.manifest@, spine: self.spine@ }
    }
}

/// The characters of each string.
pub open spec fn texts(list: Seq<String>) -> Seq<Seq<char>> {
    Seq::new(list.len(), |i: int| list[i]@)
}

/// The label of a role code: the known codes have their words, any other code
/// is `unknown`, and who has no code is an author.
pub open spec fn role_label_of(role: Option<Seq<char>>) -> Seq<char> {
    match role {
        None => "author"@,
        Some(code) => if code == "aut"@ {
            "author"@
        } else if code == "edt"@ {
            "editor"@
        } else if code == "trl"@ {
            "translator"@
        } else if code == "ill"@ {
            "illustrator"@
        } else {
            "unknown"@
        },
    }
}

/// The label that the metadata of a book is written under for a creator with
/// this role code.
pub fn role_label(role: &Option<String>) -> (label: &'static str)
    ensures
        label@ == role_label_of(text_view(*role)),
{
    match role {
        None => "author",
        Some(code) => {
            if same_text(code.as_str(), "aut") {
                "author"
            } else if same_text(code.as_str(), "edt") {
                "editor"
            } else if same_text(code.as_str(), "trl") {
                "translator"
            } else if same_text(code.as_str(), "ill") {
                "illustrator"
            } else {
                "unknown"
            }
        },
    }
}

/// The fields after each creator has been written under the label of its
/// role, in order.
pub open spec fn with_creators(fields: Fields, creators: Seq<CreatorView>) -> Fields
    decreases creators.len(),
{
    if creators.len() == 0 {
        fields
    } else {
        assigned(
            with_creators(fields, creators.drop_last()),
            role_label_of(creators.last().role),
            FieldValue::Text(creators.last().name),
        )
    }
}

/// The fields with a text, where there is one.
pub open spec fn with_text_field(fields: Fields, key: Seq<char>, text: Option<Seq<char>>) -> Fields {
    match text {
        Some(t) => assigned(fields, key, FieldValue::Text(t)),
        None => fields,
    }
}

/// The fields that the metadata of a book is written as: the title, every
/// creator under the label of its role, the language, the description, and
/// the subjects where there are any.
pub open spec fn metadata_fields(m: MetadataView) -> Fields {
    let titled = with_text_field(Seq::empty(), "title"@, m.title);
    let credited = with_creators(titled, m.creators);
    let spoken = with_text_field(credited, "language"@, m.language);
    let described = with_text_field(spoken, "description"@, m.description);
    if m.subjects.len() > 0 {
        assigned(described, "subject"@, FieldValue::List(m.subjects))
    } else {
        described
    }
}

/// The value that stands under a key.
pub open spec fn field_value(fields: Fields, key: Seq<char>) -> Option<FieldValue>
    decreases fields.len(),
{
    if fields.len() == 0 {
        None
    } else if fields[0].0 == key {
        Some(fields[0].1)
    } else {
        field_value(fields.drop_first(), key)
    }
}

/// The name of the last creator whose role has this label.
pub open spec fn last_named(creators: Seq<CreatorView>, label: Seq<char>) -> Option<Seq<char>>
    decreases creators.len(),
{
    if creators.len() == 0 {
        None
    } else if role_label_of(creators.last().role) == label {
        Some(creators.last().name)
    } else {
        last_named(creators.drop_last(), label)
    }
}

proof fn lemma_assigned_value(fields: Fields, key: Seq<char>, value: FieldValue, other: Seq<char>)
    ensures
        field_value(assigned(fields, key, value), key) == Some(value),
        other != key ==> field_value(assigned(fields, key, value), other) == field_value(
            fields,
            other,
        ),
    decreases fields.len(),
{
    if fields.len() > 0 && fields[0].0 != key {
        lemma_assigned_value(fields.drop_first(), key, value, other);
        let rest = assigned(fields.drop_first(), key, value);
        let out = seq![fields[0]] + rest;
        assert(out.drop_first() =~= rest);
    } else if fields.len() > 0 {
        let out = fields.update(0, (key, value));
        assert(out.drop_first() =~= fields.drop_first());
    } else {
        let out = seq![(key, value)];
        assert(out.drop_first() =~= fields);
    }
}

/// Of the creators that share a label the last one wins: the name written
/// under a label is the name of the last creator whose role has that label.
pub proof fn lemma_last_creator_wins(fields: Fields, creators: Seq<CreatorView>, label: Seq<char>)
    ensures
        last_named(creators, label) matches Some(name) ==> field_value(
            with_creators(fields, creators),
            label,
        ) == Some(FieldValue::Text(name)),
        last_named(creators, label) is None ==> field_value(with_creators(fields, creators), label)
            == field_value(fields, label),
    decreases creators.len(),
{
    if creators.len() > 0 {
        lemma_last_creator_wins(fields, creators.drop_last(), label);
        lemma_assigned_value(
            with_creators(fields, creators.drop_last()),
            role_label_of(creators.last().role),
            FieldValue::Text(creators.last().name),
            label,
        );
    }
}

/// A document can be a chapter: it is markup, and its id does not name a
/// cover.
pub open spec fn is_chapter_document(item: ManifestItemView) -> bool {
    !has_part(item.id, "cover"@) && item.media_type == "application/xhtml+xml"@
}

/// From the id of each document that can be a chapter to where it is. Of two
/// documents with one id the later counts.
pub open spec fn manifest_map(items: Seq<ManifestItemView>) -> Map<Seq<char>, Seq<char>>
    decreases items.len(),
{
    if items.len() == 0 {
        Map::empty()
    } else {
        let before = manifest_map(items.drop_last());
        if is_chapter_document(items.last()) {
            before.insert(items.last().id, items.last().href)
        } else {
            before
        }
    }
}

/// The first id that the manifest does not offer, if there is one.
pub open spec fn first_missing(ids: Seq<Seq<char>>, offered: Map<Seq<char>, Seq<char>>) -> Option<
    Seq<char>,
>
    decreases ids.len(),
{
    if ids.len() == 0 {
        None
    } else if !offered.contains_key(ids[0]) {
        Some(ids[0])
    } else {
        first_missing(ids.drop_first(), offered)
    }
}

/// The ids in order, each where it stands first.
pub open spec fn first_occurrences(ids: Seq<Seq<char>>) -> Seq<Seq<char>>
    decreases ids.len(),
{
    if ids.len() == 0 {
        ids
    } else if ids.drop_last().contains(ids.last()) {
        first_occurrences(ids.drop_last())
    } else {
        first_occurrences(ids.drop_last()).push(ids.last())
    }
}

/// Where each id is.
pub open spec fn hrefs_of(ids: Seq<Seq<char>>, offered: Map<Seq<char>, Seq<char>>) -> Seq<Seq<char>> {
    Seq::new(ids.len(), |i: int| offered[ids[i]])
}

/// The spine resolved against the manifest. An id that the manifest does not
/// offer rejects the book. Else every document is a chapter once, at the
/// place where the spine names it first.
pub open spec fn spine_hrefs(ids: Seq<Seq<char>>, offered: Map<Seq<char>, Seq<char>>) -> Result<
    Seq<Seq<char>>,
    EpubErrorView,
> {
    match first_missing(ids, offered) {
        Some(id) => Err(EpubErrorView::MissingChapterReference { id }),
        None => Ok(hrefs_of(first_occurrences(ids), offered)),
    }
}

proof fn lemma_first_missing_found(ids: Seq<Seq<char>>, offered: Map<Seq<char>, Seq<char>>, at: int)
    requires
        0 <= at < ids.len(),
        forall|j: int| 0 <= j < at ==> offered.contains_key(#[trigger] ids[j]),
        !offered.contains_key(ids[at]),
    ensures
        first_missing(ids, offered) == Some(ids[at]),
    decreases ids.len(),
{
    if at > 0 {
        assert(offered.contains_key(ids[0]));
        let rest = ids.drop_first();
        assert forall|j: int| 0 <= j < at - 1 implies offered.contains_key(#[trigger] rest[j]) by {
            assert(rest[j] == ids[j + 1]);
        }
        lemma_first_missing_found(rest, offered, at - 1);
    }
}

proof fn lemma_first_missing_none(ids: Seq<Seq<char>>, offered: Map<Seq<char>, Seq<char>>)
    requires
        forall|j: int| 0 <= j < ids.len() ==> offered.contains_key(#[trigger] ids[j]),
    ensures
        first_missing(ids, offered) is None,
    decreases ids.len(),
{
    if ids.len() > 0 {
        assert(offered.contains_key(ids[0]));
        let rest = ids.drop_first();
        assert forall|j: int| 0 <= j < rest.len() implies offered.contains_key(#[trigger] rest[j]) by {
            assert(rest[j] == ids[j + 1]);
        }
        lemma_first_missing_none(rest, offered);
    }
}

proof fn lemma_first_occurrences_hold_each_id_once(ids: Seq<Seq<char>>)
    ensures
        first_occurrences(ids).no_duplicates(),
        forall|id: Seq<char>| #[trigger] first_occurrences(ids).contains(id) ==> ids.contains(id),
        forall|id: Seq<char>| #[trigger] ids.contains(id) ==> first_occurrences(ids).contains(id),
    decreases ids.len(),
{
    if ids.len() > 0 {
        let head = ids.drop_last();
        let last = ids.last();
        lemma_first_occurrences_hold_each_id_once(head);
        let before = first_occurrences(head);
        let firsts = first_occurrences(ids);
        assert forall|id: Seq<char>| #[trigger] ids.contains(id) implies firsts.contains(id) by {
            let k = choose|k: int| 0 <= k < ids.len() && ids[k] == id;
            if k < ids.len() - 1 {
                assert(head[k] == id);
                assert(head.contains(id));
            } else {
                assert(id == last);
            }
            if head.contains(id) {
                assert(before.contains(id));
                let m = choose|m: int| 0 <= m < before.len() && before[m] == id;
                assert(firsts[m] == id);
            } else {
                assert(firsts[firsts.len() - 1] == id);
            }
        }
        assert forall|id: Seq<char>| #[trigger] firsts.contains(id) implies ids.contains(id) by {
            let m = choose|m: int| 0 <= m < firsts.len() && firsts[m] == id;
            if m < before.len() {
                assert(before[m] == id);
                assert(before.contains(id));
                assert(head.contains(id));
                let k = choose|k: int| 0 <= k < head.len() && head[k] == id;
                assert(ids[k] == id);
            } else {
                assert(id == last);
                assert(ids[ids.len() - 1] == id);
            }
        }
        if !head.contains(last) {
            if before.contains(last) {
                assert(head.contains(last));
            }
            assert(!before.contains(last));
        }
    }
}

/// Every document is a chapter at most once: where the spine is resolved,
/// there are as many chapters as the spine names different ids, however often
/// it names any of them.
pub proof fn lemma_each_id_resolves_once(ids: Seq<Seq<char>>, offered: Map<Seq<char>, Seq<char>>)
    ensures
        spine_hrefs(ids, offered) matches Ok(hrefs) ==> hrefs.len() == ids.to_set().len(),
{
    lemma_first_occurrences_hold_each_id_once(ids);
    let firsts = first_occurrences(ids);
    firsts.unique_seq_to_set();
    assert forall|id: Seq<char>| firsts.to_set().contains(id) <==> ids.to_set().contains(id) by {
        if firsts.contains(id) {
            assert(ids.contains(id));
        }
        if ids.contains(id) {
            assert(firsts.contains(id));
        }
    }
    assert(firsts.to_set() =~= ids.to_set());
}

impl Default for Metadata {
    /// The metadata of a book of which nothing is known.
    fn default() -> (metadata: Self)
        ensures
            metadata@.title is None,
            metadata@.creators.len() == 0,
            metadata@.language is None,
            metadata@.description is None,
            metadata@.subjects.len() == 0,
    {
        Metadata {
            title: None,
            creators: Vec::new(),
            language: None,
            description: None,
            subjects: Vec::new(),
        }
    }
}

impl Metadata {
    /// The name of the file that holds the whole book: its title, or
    /// `fallback` where it has none, with the ending `.txt`.
    pub fn book_file_name(&self, fallback: &str) -> (name: String)
        ensures
            name@ == (match self@.title {
                Some(title) => title,
                None => fallback@,
            }) + ".txt"@,
    {
        let mut name = match &self.title {
            Some(title) => title.clone(),
            None => String::from_str(fallback),
        };
        name.append(".txt");
        name
    }

    /// The metadata as the text of a TOML document. Creators that share a
    /// label are written to one key, where the last of them stays.
    pub fn to_toml(&self) -> (text: String)
        ensures
            text@ == toml_text(metadata_fields(self@)),
    {
        let mut doc = new_document();
        assert(document_fields(doc) =~= Seq::empty());
        if let Some(title) = &self.title {
            set_text(&mut doc, "title", title.as_str());
        }
        let ghost titled = document_fields(doc);
        let mut i: usize = 0;
        assert(self@.creators.take(0) =~= Seq::<CreatorView>::empty());
        while i < self.creators.len()
            invariant
                i <= self.creators.len(),
                document_fields(doc) == with_creators(titled, self@.creators.take(i as int)),
            decreases self.creators.len() - i,
        {
            assert(self@.creators.take(i + 1).drop_last() =~= self@.creators.take(i as int));
            let creator = &self.creators[i];
            set_text(&mut doc, role_label(&creator.role), creator.name.as_str());
            i += 1;
        }
        assert(self@.creators.take(self.creators.len() as int) =~= self@.creators);
        if let Some(language) = &self.language {
            set_text(&mut doc, "language", language.as_str());
        }
        if let Some(description) = &self.description {
            set_text(&mut doc, "description", description.as_str());
        }
        if self.subjects.len() > 0 {
            assert(crate::document::list_view(self.subjects@) =~= self@.subjects);
            set_list(&mut doc, "subject", &self.subjects);
        }
        document_text(&doc)
    }
}

impl Manifest {
    /// The map from the id of each document that can be a chapter to where it
    /// is: documents that are no markup, and those whose id names a cover, are
    /// left out.
    pub fn into_map(self) -> (map: AHashMap<String, String>)
        ensures
            map_entries(map) == manifest_map(self@),
    {
        let mut map = new_map();
        let mut i: usize = 0;
        assert(self@.take(0) =~= Seq::<ManifestItemView>::empty());
        assert(map_entries(map) =~= Map::<Seq<char>, Seq<char>>::empty());
        while i < self.items.len()
            invariant
                i <= self.items.len(),
                map_entries(map) == manifest_map(self@.take(i as int)),
            decreases self.items.len() - i,
        {
            assert(self@.take(i + 1).drop_last() =~= self@.take(i as int));
            let item = &self.items[i];
            if !contains(item.id.as_str(), "cover") && same_text(
                item.media_type.as_str(),
                "application/xhtml+xml",
            ) {
                map_insert(&mut map, item.id.clone(), item.href.clone());
            }
            i += 1;
        }
        assert(self@.take(self.items.len() as int) =~= self@);
        map
    }
}

impl Spine {
    /// Where the chapters are, in reading order. Each id of the spine takes
    /// its document out of the map, so that a document which the spine names
    /// again gives no second chapter. An id that the map never held rejects
    /// the book.
    pub fn into_hrefs(self, id_href_map: AHashMap<String, String>) -> (res: Result<
        Vec<String>,
        EpubError,
    >)
        ensures
            match spine_hrefs(self@, map_entries(id_href_map)) {
                Ok(hrefs) => res matches Ok(found) && texts(found@) == hrefs,
                Err(e) => res matches Err(err) && err@ == e,
            },
    {
        let ghost ids = self@;
        let ghost offered = map_entries(id_href_map);
        let mut remaining = id_href_map;
        let mut taken = new_map();
        let mut found: Vec<String> = Vec::new();
        let mut i: usize = 0;
        assert(ids.take(0) =~= Seq::<Seq<char>>::empty());
        assert(texts(found@) =~= hrefs_of(first_occurrences(ids.take(0)), offered));
        while i < self.itemrefs.len()
            invariant
                i <= self.itemrefs.len(),
                ids == self@,
                offered == map_entries(id_href_map),
                forall|j: int| 0 <= j < i ==> offered.contains_key(#[trigger] ids[j]),
                forall|k: Seq<char>| #[trigger]
                    map_entries(remaining).contains_key(k) <==> offered.contains_key(k)
                        && !ids.take(i as int).contains(k),
                forall|k: Seq<char>| #[trigger]
                    map_entries(remaining).contains_key(k) ==> map_entries(remaining)[k]
                        == offered[k],
                forall|k: Seq<char>| #[trigger]
                    map_entries(taken).contains_key(k) <==> ids.take(i as int).contains(k),
                texts(found@) == hrefs_of(first_occurrences(ids.take(i as int)), offered),
            decreases self.itemrefs.len() - i,
        {
            let id = &self.itemrefs[i].idref;
            let ghost upto = ids.take(i as int);
            let ghost next = ids.take(i + 1);
            proof {
                assert(next.drop_last() =~= upto);
                assert(next.last() == id@);
                assert forall|k: Seq<char>| next.contains(k) <==> upto.contains(k) || k == id@ by {
                    if upto.contains(k) {
                        let m = choose|m: int| 0 <= m < upto.len() && upto[m] == k;
                        assert(next[m] == k);
                    }
                    if k == id@ {
                        assert(next[i as int] == k);
                    }
                    if next.contains(k) {
                        let m = choose|m: int| 0 <= m < next.len() && next[m] == k;
                        if m < i {
                            assert(upto[m] == k);
                        }
                    }
                }
            }
            let ghost left = map_entries(remaining);
            let ghost gone = map_entries(taken);
            proof {
                assert(left.contains_key(id@) <==> offered.contains_key(id@) && !upto.contains(id@));
                assert(gone.contains_key(id@) <==> upto.contains(id@));
                assert(ids[i as int] == id@);
            }
            match map_remove(&mut remaining, id.as_str()) {
                Some(href) => {
                    let ghost before = texts(found@);
                    found.push(href);
                    map_insert(&mut taken, id.clone(), String::new());
                    proof {
                        assert(!upto.contains(id@));
                        assert(href@ == offered[id@]);
                        assert forall|k: Seq<char>| #[trigger]
                            map_entries(remaining).contains_key(k) <==> offered.contains_key(k)
                                && !next.contains(k) by {
                            assert(left.contains_key(k) <==> offered.contains_key(k)
                                && !upto.contains(k));
                        }
                        assert forall|k: Seq<char>| #[trigger]
                            map_entries(remaining).contains_key(k) implies map_entries(
                            remaining,
                        )[k] == offered[k] by {
                            assert(left.contains_key(k));
                        }
                        assert forall|k: Seq<char>| #[trigger]
                            map_entries(taken).contains_key(k) <==> next.contains(k) by {
                            assert(gone.contains_key(k) <==> upto.contains(k));
                        }
                        assert(first_occurrences(next) == first_occurrences(upto).push(id@));
                        assert(texts(found@) =~= before.push(offered[id@]));
                        assert(texts(found@) =~= hrefs_of(first_occurrences(next), offered));
                    }
                },
                None => {
                    if !map_contains_key(&taken, id.as_str()) {
                        proof {
                            lemma_first_missing_found(ids, offered, i as int);
                        }
                        return Err(EpubError::MissingChapterReference { id: id.clone() });
                    }
                    proof {
                        assert(upto.contains(id@));
                        let m = choose|m: int| 0 <= m < upto.len() && upto[m] == id@;
                        assert(ids[m] == id@);
                        assert(map_entries(remaining) =~= left);
                        assert forall|k: Seq<char>| #[trigger]
                            map_entries(remaining).contains_key(k) <==> offered.contains_key(k)
                                && !next.contains(k) by {
                            assert(left.contains_key(k) <==> offered.contains_key(k)
                                && !upto.contains(k));
                        }
                        assert forall|k: Seq<char>| #[trigger]
                            map_entries(taken).contains_key(k) <==> next.contains(k) by {
                            assert(gone.contains_key(k) <==> upto.contains(k));
                        }
                        assert(first_occurrences(next) == first_occurrences(upto));
                    }
                },
            }
            i += 1;
        }
        proof {
            assert(ids.take(self.itemrefs.len() as int) =~= ids);
            lemma_first_missing_none(ids, offered);
        }
        Ok(found)
    }
}

} // verus!
