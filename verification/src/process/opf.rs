//! Reading the two descriptors of a container: the bootstrap file, which
//! names the package descriptor, and the package descriptor itself, with its
//! metadata, its manifest and its spine.

use vstd::prelude::*;
use vstd::string::StringExecFns;
use crate::events::{pair_views, xml_events, XmlOutcome, XmlToken, XmlTokenView};
use crate::process::metadata::{
    manifest_map, spine_hrefs, text_view, texts, Creator, CreatorView, ItemRef, Manifest,
    ManifestItem, ManifestItemView, Metadata, MetadataView, Package, PackageView, Spine,
};
use crate::process::tokens::{
    attribute_of, document_tokens, read_attribute, read_document, token_views, AttributeViews,
};
use crate::process::{EpubError, EpubErrorView};
use crate::text::{contains, has_part, same_text, trim, trimmed};
use crate::utils::{normalize_zip_path, parent_dir, resolved};

verus! {

/// The path of the package descriptor that the tokens of a bootstrap file
/// name: the `full-path` of the first `rootfile` tag that has one and stands
/// inside `rootfiles`. `inside` tells whether `rootfiles` is open.
pub open spec fn descriptor_path(tokens: Seq<XmlTokenView>, inside: bool) -> Option<Seq<char>>
    decreases tokens.len(),
{
    if tokens.len() == 0 {
        None
    } else {
        let rest = tokens.drop_first();
        match tokens[0] {
            XmlTokenView::Open { name, attributes } => {
                if name == "rootfiles"@ {
                    descriptor_path(rest, true)
                } else if inside && name == "rootfile"@ {
                    match attribute_of(attributes, "full-path"@) {
                        Some(path) => Some(path),
                        None => descriptor_path(rest, inside),
                    }
                } else {
                    descriptor_path(rest, inside)
                }
            },
            XmlTokenView::Close { name } => {
                if name == "rootfiles"@ {
                    descriptor_path(rest, false)
                } else {
                    descriptor_path(rest, inside)
                }
            },
            _ => descriptor_path(rest, inside),
        }
    }
}

/// The path of the package descriptor that a run of reads of the bootstrap
/// file names.
pub open spec fn located(events: Seq<XmlOutcome>) -> Result<Seq<char>, EpubErrorView> {
    match document_tokens(events) {
        None => Err(EpubErrorView::MalformedXml),
        Some(tokens) => match descriptor_path(tokens, false) {
            Some(path) => Ok(path),
            None => Err(EpubErrorView::DescriptorNotFound),
        },
    }
}

/// The path of the package descriptor that the tokens of a bootstrap file
/// name, if they name one.
pub fn find_opf_path(tokens: &[XmlToken]) -> (path: Option<String>)
    ensures
        match descriptor_path(token_views(tokens@), false) {
            Some(found) => path matches Some(p) && p@ == found,
            None => path is None,
        },
{
    let ghost views = token_views(tokens@);
    let mut inside = false;
    let mut i: usize = 0;
    assert(views.skip(0) =~= views);
    while i < tokens.len()
        invariant
            i <= tokens.len(),
            views == token_views(tokens@),
            descriptor_path(views.skip(i as int), inside) == descriptor_path(views, false),
        decreases tokens.len() - i,
    {
        assert(views.skip(i as int).drop_first() =~= views.skip(i + 1));
        assert(views.skip(i as int)[0] == tokens@[i as int]@);
        match &tokens[i] {
            XmlToken::Open { name, attributes } => {
                if same_text(name.as_str(), "rootfiles") {
                    inside = true;
                } else if inside && same_text(name.as_str(), "rootfile") {
                    match read_attribute(attributes.as_slice(), "full-path") {
                        Some(path) => {
                            return Some(path);
                        },
                        None => {},
                    }
                }
            },
            XmlToken::Close { name } => {
                if same_text(name.as_str(), "rootfiles") {
                    inside = false;
                }
            },
            _ => {},
        }
        i += 1;
    }
    None
}

/// The path of the package descriptor, as the bootstrap file
/// `META-INF/container.xml` with the content `container` names it. The file
/// has to be well-formed XML to its end.
pub fn get_opf_path(container: &[u8]) -> (res: Result<String, EpubError>)
    ensures
        match located(xml_events(container@)) {
            Ok(path) => res matches Ok(found) && found@ == path,
            Err(e) => res matches Err(err) && err@ == e,
        },
{
    match read_document(container) {
        Err(e) => Err(e),
        Ok(tokens) => match find_opf_path(tokens.as_slice()) {
            Some(path) => Ok(path),
            None => Err(EpubError::DescriptorNotFound),
        },
    }
}

/// The fields of the metadata that are read.
#[derive(Debug, Clone, Copy, PartialEq, Eq, Structural)]
pub enum MetaField {
    Title,
    Creator,
    Language,
    Description,
    Subject,
    /// Any other element.
    Other,
}

/// The field that a tag names.
pub open spec fn field_of(name: Seq<char>) -> MetaField {
    if name == "title"@ {
        MetaField::Title
    } else if name == "creator"@ {
        MetaField::Creator
    } else if name == "language"@ {
        MetaField::Language
    } else if name == "description"@ {
        MetaField::Description
    } else if name == "subject"@ {
        MetaField::Subject
    } else {
        MetaField::Other
    }
}

/// The field that the tag `name` names.
pub fn field_named(name: &str) -> (field: MetaField)
    ensures
        field == field_of(name@),
{
    if same_text(name, "title") {
        MetaField::Title
    } else if same_text(name, "creator") {
        MetaField::Creator
    } else if same_text(name, "language") {
        MetaField::Language
    } else if same_text(name, "description") {
        MetaField::Description
    } else if same_text(name, "subject") {
        MetaField::Subject
    } else {
        MetaField::Other
    }
}

/// What is known of the metadata in the middle of the descriptor.
#[derive(Debug)]
pub struct MetadataScan {
    /// Whether the metadata block is open.
    pub inside: bool,
    /// The field whose text is being read.
    pub field: MetaField,
    /// The text read of that field.
    pub value: String,
    /// The role code of the creator being read.
    pub role: Option<String>,
    pub metadata: Metadata,
}

/// A scan of the metadata as plain values.
pub struct MetadataScanView {
    pub inside: bool,
    pub field: MetaField,
    pub value: Seq<char>,
    pub role: Option<Seq<char>>,
    pub metadata: MetadataView,
}

impl View for MetadataScan {
    type V = MetadataScanView;

    open spec fn view(&self) -> MetadataScanView {
        MetadataScanView {
            inside: self.inside,
            field: self.field,
            value: self.value@,
            role: text_view(self.role),
            metadata: self.metadata@,
        }
    }
}

/// The metadata of a book of which nothing is known.
pub open spec fn no_metadata() -> MetadataView {
    MetadataView {
        title: None,
        creators: Seq::empty(),
        language: None,
        description: None,
        subjects: Seq::empty(),
    }
}

/// The scan of the metadata before the first token.
pub open spec fn metadata_start() -> MetadataScanView {
    MetadataScanView {
        inside: false,
        field: MetaField::Other,
        value: Seq::empty(),
        role: None,
        metadata: no_metadata(),
    }
}

/// A tag opens inside the metadata block: the text of a field starts anew,
/// and a creator brings the role code of its `role` attribute. Inside any
/// other element no text is read.
pub open spec fn field_opened(s: MetadataScanView, name: Seq<char>, attributes: AttributeViews) -> MetadataScanView {
    let field = field_of(name);
    if field == MetaField::Other {
        MetadataScanView { field, ..s }
    } else if field == MetaField::Creator {
        MetadataScanView {
            field,
            value: Seq::empty(),
            role: attribute_of(attributes, "role"@),
            ..s
        }
    } else {
        MetadataScanView { field, value: Seq::empty(), ..s }
    }
}

/// A field closes: its text, without the white space around it, goes into
/// the metadata. A single field holds what was read last, and creators and
/// subjects are kept in order.
pub open spec fn field_closed(s: MetadataScanView, field: MetaField) -> MetadataScanView {
    let text = trimmed(s.value);
    let done = MetadataScanView { field: MetaField::Other, value: Seq::empty(), ..s };
    match field {
        MetaField::Title => MetadataScanView {
            metadata: MetadataView { title: Some(text), ..s.metadata },
            ..done
        },
        MetaField::Creator => MetadataScanView {
            role: None,
            metadata: MetadataView {
                creators: s.metadata.creators.push(CreatorView { name: text, role: s.role }),
                ..s.metadata
            },
            ..done
        },
        MetaField::Language => MetadataScanView {
            metadata: MetadataView { language: Some(text), ..s.metadata },
            ..done
        },
        MetaField::Description => MetadataScanView {
            metadata: MetadataView { description: Some(text), ..s.metadata },
            ..done
        },
        MetaField::Subject => MetadataScanView {
            metadata: MetadataView { subjects: s.metadata.subjects.push(text), ..s.metadata },
            ..done
        },
        MetaField::Other => s,
    }
}

/// The scan of the metadata after one more token.
pub open spec fn metadata_step(s: MetadataScanView, token: XmlTokenView) -> MetadataScanView {
    match token {
        XmlTokenView::Open { name, attributes } => {
            if name == "metadata"@ {
                MetadataScanView { inside: true, ..s }
            } else if s.inside {
                field_opened(s, name, attributes)
            } else {
                s
            }
        },
        XmlTokenView::Close { name } => {
            if name == "metadata"@ {
                MetadataScanView { inside: false, ..s }
            } else if s.inside {
                field_closed(s, field_of(name))
            } else {
                s
            }
        },
        XmlTokenView::Text { text } => {
            if s.inside && s.field != MetaField::Other {
                MetadataScanView { value: s.value + text, ..s }
            } else {
                s
            }
        },
        XmlTokenView::Other => s,
        XmlTokenView::End => s,
    }
}

/// The scan of the metadata after a list of tokens.
pub open spec fn metadata_scan(s: MetadataScanView, tokens: Seq<XmlTokenView>) -> MetadataScanView
    decreases tokens.len(),
{
    if tokens.len() == 0 {
        s
    } else {
        metadata_scan(metadata_step(s, tokens[0]), tokens.drop_first())
    }
}

/// The metadata that a descriptor holds.
pub open spec fn metadata_of(tokens: Seq<XmlTokenView>) -> MetadataView {
    metadata_scan(metadata_start(), tokens).metadata
}

fn copy_of(text: &Option<String>) -> (copy: Option<String>)
    ensures
        text_view(copy) == text_view(*text),
{
    match text {
        Some(t) => Some(t.clone()),
        None => None,
    }
}

impl MetadataScan {
    /// The scan before the first token.
    pub fn new() -> (s: MetadataScan)
        ensures
            s@ == metadata_start(),
    {
        let s = MetadataScan {
            inside: false,
            field: MetaField::Other,
            value: String::new(),
            role: None,
            metadata: Metadata {
                title: None,
                creators: Vec::new(),
                language: None,
                description: None,
                subjects: Vec::new(),
            },
        };
        assert(s@.metadata.creators =~= Seq::<CreatorView>::empty());
        assert(s@.metadata.subjects =~= Seq::<Seq<char>>::empty());
        s
    }

    /// Takes an opening tag inside the metadata block.
    pub fn open_field(&mut self, name: &str, attributes: &[(String, String)])
        ensures
            final(self)@ == field_opened(old(self)@, name@, pair_views(attributes@)),
    {
        let field = field_named(name);
        match field {
            MetaField::Other => {
                self.field = field;
            },
            MetaField::Creator => {
                self.field = field;
                self.value = String::new();
                self.role = read_attribute(attributes, "role");
            },
            _ => {
                self.field = field;
                self.value = String::new();
            },
        }
    }

    /// Takes the closing tag of `field` inside the metadata block.
    pub fn close_field(&mut self, field: MetaField)
        ensures
            final(self)@ == field_closed(old(self)@, field),
    {
        match field {
            MetaField::Other => {},
            MetaField::Title => {
                self.metadata.title = Some(trim(self.value.as_str()));
                self.field = MetaField::Other;
                self.value = String::new();
            },
            MetaField::Creator => {
                let ghost before = self.metadata@.creators;
                let creator = Creator { name: trim(self.value.as_str()), role: copy_of(&self.role) };
                self.metadata.creators.push(creator);
                self.role = None;
                self.field = MetaField::Other;
                self.value = String::new();
                assert(self.metadata@.creators =~= before.push(
                    CreatorView { name: trimmed(old(self).value@), role: text_view(old(self).role) },
                ));
            },
            MetaField::Language => {
                self.metadata.language = Some(trim(self.value.as_str()));
                self.field = MetaField::Other;
                self.value = String::new();
            },
            MetaField::Description => {
                self.metadata.description = Some(trim(self.value.as_str()));
                self.field = MetaField::Other;
                self.value = String::new();
            },
            MetaField::Subject => {
                let ghost before = self.metadata@.subjects;
                let subject = trim(self.value.as_str());
                self.metadata.subjects.push(subject);
                self.field = MetaField::Other;
                self.value = String::new();
                assert(self.metadata@.subjects =~= before.push(trimmed(old(self).value@)));
            },
        }
    }

    /// Takes one token.
    pub fn step(&mut self, token: &XmlToken)
        ensures
            final(self)@ == metadata_step(old(self)@, token@),
    {
        match token {
            XmlToken::Open { name, attributes } => {
                if same_text(name.as_str(), "metadata") {
                    self.inside = true;
                } else if self.inside {
                    self.open_field(name.as_str(), attributes.as_slice());
                }
            },
            XmlToken::Close { name } => {
                if same_text(name.as_str(), "metadata") {
                    self.inside = false;
                } else if self.inside {
                    self.close_field(field_named(name.as_str()));
                }
            },
            XmlToken::Text { text } => {
                if self.inside && self.field != MetaField::Other {
                    self.value.append(text.as_str());
                }
            },
            XmlToken::Other => {},
            XmlToken::End => {},
        }
    }
}

/// The metadata of a book: the text of the `title`, `creator`, `language`,
/// `description` and `subject` elements inside the `metadata` block, each
/// without the white space around it; a creator with the role code of its
/// `role` attribute. Elements of other names are passed over.
pub fn parse_metadata(tokens: &[XmlToken]) -> (metadata: Metadata)
    ensures
        metadata@ == metadata_of(token_views(tokens@)),
{
    let ghost views = token_views(tokens@);
    let mut scan = MetadataScan::new();
    let mut i: usize = 0;
    assert(views.skip(0) =~= views);
    while i < tokens.len()
        invariant
            i <= tokens.len(),
            views == token_views(tokens@),
            metadata_scan(scan@, views.skip(i as int)) == metadata_scan(metadata_start(), views),
        decreases tokens.len() - i,
    {
        assert(views.skip(i as int).drop_first() =~= views.skip(i + 1));
        assert(views.skip(i as int)[0] == tokens@[i as int]@);
        scan.step(&tokens[i]);
        i += 1;
    }
    scan.metadata
}

/// The items that a manifest block has listed so far, and whether it is open.
pub struct ManifestScanView {
    pub inside: bool,
    pub items: Seq<ManifestItemView>,
}

/// The document that an `item` tag lists, if it has an id and a place. A
/// missing media type is an empty one.
pub open spec fn item_of(attributes: AttributeViews) -> Option<ManifestItemView> {
    match (attribute_of(attributes, "id"@), attribute_of(attributes, "href"@)) {
        (Some(id), Some(href)) => Some(
            ManifestItemView {
                id,
                href,
                media_type: match attribute_of(attributes, "media-type"@) {
                    Some(m) => m,
                    None => Seq::empty(),
                },
            },
        ),
        _ => None,
    }
}

/// The scan of the manifest after one more token.
pub open spec fn manifest_step(s: ManifestScanView, token: XmlTokenView) -> ManifestScanView {
    match token {
        XmlTokenView::Open { name, attributes } => {
            if name == "manifest"@ {
                ManifestScanView { inside: true, ..s }
            } else if s.inside && name == "item"@ {
                match item_of(attributes) {
                    Some(item) => ManifestScanView { items: s.items.push(item), ..s },
                    None => s,
                }
            } else {
                s
            }
        },
        XmlTokenView::Close { name } => {
            if name == "manifest"@ {
                ManifestScanView { inside: false, ..s }
            } else {
                s
            }
        },
        _ => s,
    }
}

/// The scan of the manifest after a list of tokens.
pub open spec fn manifest_scan(s: ManifestScanView, tokens: Seq<XmlTokenView>) -> ManifestScanView
    decreases tokens.len(),
{
    if tokens.len() == 0 {
        s
    } else {
        manifest_scan(manifest_step(s, tokens[0]), tokens.drop_first())
    }
}

/// The documents that a descriptor lists.
pub open spec fn manifest_of(tokens: Seq<XmlTokenView>) -> Seq<ManifestItemView> {
    manifest_scan(ManifestScanView { inside: false, items: Seq::empty() }, tokens).items
}

/// The document that an `item` tag with these attributes lists.
pub fn read_item(attributes: &[(String, String)]) -> (item: Option<ManifestItem>)
    ensures
        match item_of(pair_views(attributes@)) {
            Some(listed) => item matches Some(found) && found@ == listed,
            None => item is None,
        },
{
    let id = read_attribute(attributes, "id");
    let href = read_attribute(attributes, "href");
    match (id, href) {
        (Some(id), Some(href)) => {
            let media_type = match read_attribute(attributes, "media-type") {
                Some(m) => m,
                None => String::new(),
            };
            Some(ManifestItem { id, href, media_type })
        },
        _ => None,
    }
}

/// The manifest of a book: the id, the place and the media type of every
/// `item` tag inside the `manifest` block that has an id and a place.
pub fn parse_manifest(tokens: &[XmlToken]) -> (manifest: Manifest)
    ensures
        manifest@ == manifest_of(token_views(tokens@)),
{
    let ghost views = token_views(tokens@);
    let ghost begin = ManifestScanView { inside: false, items: Seq::empty() };
    let mut manifest = Manifest { items: Vec::new() };
    let mut inside = false;
    let mut i: usize = 0;
    assert(views.skip(0) =~= views);
    assert(manifest@ =~= Seq::<ManifestItemView>::empty());
    while i < tokens.len()
        invariant
            i <= tokens.len(),
            views == token_views(tokens@),
            begin == (ManifestScanView { inside: false, items: Seq::empty() }),
            manifest_scan(ManifestScanView { inside, items: manifest@ }, views.skip(i as int))
                == manifest_scan(begin, views),
        decreases tokens.len() - i,
    {
        assert(views.skip(i as int).drop_first() =~= views.skip(i + 1));
        assert(views.skip(i as int)[0] == tokens@[i as int]@);
        match &tokens[i] {
            XmlToken::Open { name, attributes } => {
                if same_text(name.as_str(), "manifest") {
                    inside = true;
                } else if inside && same_text(name.as_str(), "item") {
                    match read_item(attributes.as_slice()) {
                        Some(item) => {
                            let ghost before = manifest@;
                            let ghost view = item@;
                            manifest.items.push(item);
                            assert(manifest@ =~= before.push(view));
                        },
                        None => {},
                    }
                }
            },
            XmlToken::Close { name } => {
                if same_text(name.as_str(), "manifest") {
                    inside = false;
                }
            },
            _ => {},
        }
        i += 1;
    }
    manifest
}

/// The ids that a spine block has listed so far, and whether it is open.
pub struct SpineScanView {
    pub inside: bool,
    pub ids: Seq<Seq<char>>,
}

/// An id can name a chapter: it names neither a navigation document nor a
/// cover.
pub open spec fn is_chapter_id(id: Seq<char>) -> bool {
    !has_part(id, "nav"@) && !has_part(id, "cover"@)
}

/// The scan of the spine after one more token.
pub open spec fn spine_step(s: SpineScanView, token: XmlTokenView) -> SpineScanView {
    match token {
        XmlTokenView::Open { name, attributes } => {
            if name == "spine"@ {
                SpineScanView { inside: true, ..s }
            } else if s.inside && name == "itemref"@ {
                match attribute_of(attributes, "idref"@) {
                    Some(id) => if is_chapter_id(id) {
                        SpineScanView { ids: s.ids.push(id), ..s }
                    } else {
                        s
                    },
                    None => s,
                }
            } else {
                s
            }
        },
        XmlTokenView::Close { name } => {
            if name == "spine"@ {
                SpineScanView { inside: false, ..s }
            } else {
                s
            }
        },
        _ => s,
    }
}

/// The scan of the spine after a list of tokens.
pub open spec fn spine_scan(s: SpineScanView, tokens: Seq<XmlTokenView>) -> SpineScanView
    decreases tokens.len(),
{
    if tokens.len() == 0 {
        s
    } else {
        spine_scan(spine_step(s, tokens[0]), tokens.drop_first())
    }
}

/// The reading order that a descriptor gives.
pub open spec fn spine_of(tokens: Seq<XmlTokenView>) -> Seq<Seq<char>> {
    spine_scan(SpineScanView { inside: false, ids: Seq::empty() }, tokens).ids
}

/// The spine of a book: the `idref` of every `itemref` tag inside the `spine`
/// block, but for those that name a navigation document or a cover.
pub fn parse_spine(tokens: &[XmlToken]) -> (spine: Spine)
    ensures
        spine@ == spine_of(token_views(tokens@)),
{
    let ghost views = token_views(tokens@);
    let ghost begin = SpineScanView { inside: false, ids: Seq::empty() };
    let mut spine = Spine { itemrefs: Vec::new() };
    let mut inside = false;
    let mut i: usize = 0;
    assert(views.skip(0) =~= views);
    assert(spine@ =~= Seq::<Seq<char>>::empty());
    while i < tokens.len()
        invariant
            i <= tokens.len(),
            views == token_views(tokens@),
            begin == (SpineScanView { inside: false, ids: Seq::empty() }),
            spine_scan(SpineScanView { inside, ids: spine@ }, views.skip(i as int)) == spine_scan(
                begin,
                views,
            ),
        decreases tokens.len() - i,
    {
        assert(views.skip(i as int).drop_first() =~= views.skip(i + 1));
        assert(views.skip(i as int)[0] == tokens@[i as int]@);
        match &tokens[i] {
            XmlToken::Open { name, attributes } => {
                if same_text(name.as_str(), "spine") {
                    inside = true;
                } else if inside && same_text(name.as_str(), "itemref") {
                    match read_attribute(attributes.as_slice(), "idref") {
                        Some(idref) => {
                            if !contains(idref.as_str(), "nav") && !contains(
                                idref.as_str(),
                                "cover",
                            ) {
                                let ghost before = spine@;
                                let ghost id = idref@;
                                spine.itemrefs.push(ItemRef { idref });
                                assert(spine@ =~= before.push(id));
                            }
                        },
                        None => {},
                    }
                }
            },
            XmlToken::Close { name } => {
                if same_text(name.as_str(), "spine") {
                    inside = false;
                }
            },
            _ => {},
        }
        i += 1;
    }
    spine
}

/// The package that a descriptor holds. Its three blocks may stand in any
/// order.
pub open spec fn package_of(tokens: Seq<XmlTokenView>) -> PackageView {
    PackageView {
        metadata: metadata_of(tokens),
        manifest: manifest_of(tokens),
        spine: spine_of(tokens),
    }
}

/// The package that a run of reads of a descriptor gives.
pub open spec fn package_in(events: Seq<XmlOutcome>) -> Result<PackageView, EpubErrorView> {
    match document_tokens(events) {
        None => Err(EpubErrorView::MalformedXml),
        Some(tokens) => Ok(package_of(tokens)),
    }
}

/// Where the chapters of a package are inside the container, in reading
/// order: the spine resolved against the manifest, and each place read from
/// the directory of the descriptor.
pub open spec fn chapter_paths(package: PackageView, opf_path: Seq<char>) -> Result<
    Seq<Seq<char>>,
    EpubErrorView,
> {
    match spine_hrefs(package.spine, manifest_map(package.manifest)) {
        Err(e) => Err(e),
        Ok(hrefs) => Ok(Seq::new(hrefs.len(), |i: int| resolved(parent_dir(opf_path), hrefs[i]))),
    }
}

/// The metadata and the chapter paths that a run of reads of a descriptor
/// gives.
pub open spec fn parsed(events: Seq<XmlOutcome>, opf_path: Seq<char>) -> Result<
    (MetadataView, Seq<Seq<char>>),
    EpubErrorView,
> {
    match package_in(events) {
        Err(e) => Err(e),
        Ok(package) => match chapter_paths(package, opf_path) {
            Err(e) => Err(e),
            Ok(paths) => Ok((package.metadata, paths)),
        },
    }
}

impl Package {
    /// The package in the tokens of a descriptor.
    pub fn from_tokens(tokens: &[XmlToken]) -> (package: Package)
        ensures
            package@ == package_of(token_views(tokens@)),
    {
        Package {
            metadata: parse_metadata(tokens),
            manifest: parse_manifest(tokens),
            spine: parse_spine(tokens),
        }
    }

    /// The package in the bytes of a descriptor, which has to be well-formed
    /// XML.
    pub fn from_opf(opf: &[u8]) -> (res: Result<Package, EpubError>)
        ensures
            match package_in(xml_events(opf@)) {
                Ok(package) => res matches Ok(found) && found@ == package,
                Err(e) => res matches Err(err) && err@ == e,
            },
    {
        match read_document(opf) {
            Err(e) => Err(e),
            Ok(tokens) => Ok(Package::from_tokens(tokens.as_slice())),
        }
    }

    /// The metadata of the package and the paths of its chapters inside the
    /// container, in reading order, for a descriptor that stands at
    /// `opf_path`. The book is rejected where the spine names a document that
    /// the manifest does not offer as a chapter.
    pub fn into_chapters(self, opf_path: &str) -> (res: Result<(Metadata, Vec<String>), EpubError>)
        ensures
            match chapter_paths(self@, opf_path@) {
                Ok(paths) => res matches Ok(found) && found.0@ == self@.metadata && texts(found.1@)
                    == paths,
                Err(e) => res matches Err(err) && err@ == e,
            },
    {
        let Package { metadata, manifest, spine } = self;
        let map = manifest.into_map();
        let hrefs = match spine.into_hrefs(map) {
            Err(e) => {
                return Err(e);
            },
            Ok(hrefs) => hrefs,
        };
        let mut paths: Vec<String> = Vec::new();
        let mut i: usize = 0;
        while i < hrefs.len()
            invariant
                i <= hrefs.len(),
                paths@.len() == i,
                forall|j: int| 0 <= j < i ==> (#[trigger] paths@[j])@ == resolved(
                    parent_dir(opf_path@),
                    hrefs@[j]@,
                ),
            decreases hrefs.len() - i,
        {
            let path = normalize_zip_path(opf_path, hrefs[i].clone());
            paths.push(path);
            i += 1;
        }
        assert(texts(paths@) =~= Seq::new(
            texts(hrefs@).len(),
            |i: int| resolved(parent_dir(opf_path@), texts(hrefs@)[i]),
        ));
        Ok((metadata, paths))
    }
}

/// The metadata of a book and the paths of its chapters inside the container,
/// in reading order, from the bytes of the package descriptor that stands at
/// `opf_path`.
pub fn parse_opf(opf: &[u8], opf_path: &str) -> (res: Result<(Metadata, Vec<String>), EpubError>)
    ensures
        match parsed(xml_events(opf@), opf_path@) {
            Ok(book) => res matches Ok(found) && found.0@ == book.0 && texts(found.1@) == book.1,
            Err(e) => res matches Err(err) && err@ == e,
        },
{
    match Package::from_opf(opf) {
        Err(e) => Err(e),
        Ok(package) => package.into_chapters(opf_path),
    }
}

/// Every document is a chapter at most once: a package has as many chapter
/// paths as its spine names different ids, however often it names any of
/// them.
pub proof fn lemma_one_chapter_for_each_id(package: PackageView, opf_path: Seq<char>)
    ensures
        chapter_paths(package, opf_path) matches Ok(paths) ==> paths.len()
            == package.spine.to_set().len(),
{
    crate::process::metadata::lemma_each_id_resolves_once(
        package.spine,
        manifest_map(package.manifest),
    );
}

} // verus!
