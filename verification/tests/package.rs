use epub2txt::events::XmlToken;
use epub2txt::markup::RawAttribute;
use epub2txt::process::metadata::{ItemRef, Manifest, ManifestItem, Package, Spine};
use epub2txt::process::opf::{
    field_named, find_opf_path, get_opf_path, parse_manifest, parse_metadata, parse_opf,
    parse_spine, read_item, MetaField, MetadataScan,
};
use epub2txt::process::tokens::{read_attribute, read_document};
use epub2txt::process::{extract_opf_path, read_full_path, EpubError};

const BOOK: &str = r#"<?xml version="1.0" encoding="UTF-8"?>
<package xmlns="http://www.idpf.org/2007/opf" unique-identifier="BookId" version="2.0">
<metadata xmlns:dc="http://purl.org/dc/elements/1.1/" xmlns:opf="http://www.idpf.org/2007/opf">
<dc:identifier id="BookId" opf:scheme="UUID">062b32e6-a657-42cf-95ba-5f9f6efd005a</dc:identifier>
<dc:language>ko</dc:language>
<dc:title>짝사랑했던 성녀의 딸을 주웠다</dc:title>
<dc:creator opf:role="aut">최태원씨</dc:creator>
<dc:description>걔한테 니엄마라고 해버렸다.</dc:description>
<meta name="cover" content="cover-image"/>
<dc:subject>판타지</dc:subject>
<dc:subject>전생</dc:subject>
<dc:subject>중세</dc:subject>
<dc:subject>모험</dc:subject>
<dc:subject>TS히로인</dc:subject>
<meta content="1.9.10" name="Sigil version"/>
</metadata>
<manifest>
<item id="ncx" href="toc.ncx" media-type="application/x-dtbncx+xml"/>
<item id="sgc-toc.css" href="Styles/sgc-toc.css" media-type="text/css"/>
<item id="Stylesheet.css" href="Styles/Stylesheet.css" media-type="text/css"/>
<item id="cover.html" href="Text/cover.html" media-type="application/xhtml+xml"/>
<item id="cover-image" href="Images/cover.jpg" media-type="image/jpeg"/>
<item id="chapternotice_0000.html" href="Text/chapternotice_0000.html" media-type="application/xhtml+xml"/>
<item id="chapternotice_0001.html" href="Text/chapternotice_0001.html" media-type="application/xhtml+xml"/>
<item id="chapternotice_0002.html" href="Text/chapternotice_0002.html" media-type="application/xhtml+xml"/>
</manifest>
<spine toc="ncx">
<itemref idref="cover.html"/>
<itemref idref="chapternotice_0000.html"/>
<itemref idref="chapternotice_0001.html"/>
<itemref idref="chapternotice_0002.html"/>
</spine>
</package>
    "#;

#[test]
fn test_extract_opf_path() {
    let opf = BOOK;
    let package: Package = Package::from_opf(opf.as_bytes()).unwrap();
    println!("{:#?}", package);
}

#[test]
fn the_package_holds_what_the_descriptor_says() {
    let package = Package::from_opf(BOOK.as_bytes()).unwrap();
    let metadata = &package.metadata;
    assert_eq!(metadata.title.as_deref(), Some("짝사랑했던 성녀의 딸을 주웠다"));
    assert_eq!(metadata.language.as_deref(), Some("ko"));
    assert_eq!(metadata.description.as_deref(), Some("걔한테 니엄마라고 해버렸다."));
    assert_eq!(metadata.creators.len(), 1);
    assert_eq!(metadata.creators[0].name, "최태원씨");
    assert_eq!(metadata.creators[0].role.as_deref(), Some("aut"));
    assert_eq!(metadata.subjects, vec!["판타지", "전생", "중세", "모험", "TS히로인"]);
    assert_eq!(package.manifest.items.len(), 8);
    assert_eq!(package.manifest.items[0].id, "ncx");
    assert_eq!(package.manifest.items[0].href, "toc.ncx");
    assert_eq!(package.manifest.items[0].media_type, "application/x-dtbncx+xml");
    let ids: Vec<&str> = package.spine.itemrefs.iter().map(|r| r.idref.as_str()).collect();
    assert_eq!(
        ids,
        vec!["chapternotice_0000.html", "chapternotice_0001.html", "chapternotice_0002.html"]
    );
}

#[test]
fn the_chapters_come_in_reading_order_under_the_descriptor_directory() {
    let (metadata, paths) = parse_opf(BOOK.as_bytes(), "OEBPS/content.opf").unwrap();
    assert_eq!(metadata.language.as_deref(), Some("ko"));
    assert_eq!(
        paths,
        vec![
            "OEBPS/Text/chapternotice_0000.html",
            "OEBPS/Text/chapternotice_0001.html",
            "OEBPS/Text/chapternotice_0002.html",
        ]
    );
    let (_, at_root) = parse_opf(BOOK.as_bytes(), "content.opf").unwrap();
    assert_eq!(at_root[0], "Text/chapternotice_0000.html");
}

fn descriptor(manifest: &str, spine: &str) -> String {
    format!(
        "<package><spine>{}</spine><metadata><title> T </title></metadata><manifest>{}</manifest></package>",
        spine, manifest
    )
}

fn item(id: &str, href: &str) -> String {
    format!("<item id=\"{}\" href=\"{}\" media-type=\"application/xhtml+xml\"/>", id, href)
}

fn itemref(id: &str) -> String {
    format!("<itemref idref=\"{}\"/>", id)
}

#[test]
fn a_spine_id_without_manifest_entry_rejects_the_book() {
    let manifest = [item("cover.html", "c1.html"), item("cover.html", "c2.html"), item("a", "a.html"), item("b", "b.html")].concat();
    let spine = [itemref("a"), itemref("missing"), itemref("b")].concat();
    let res = parse_opf(descriptor(&manifest, &spine).as_bytes(), "content.opf");
    assert_eq!(res.unwrap_err(), EpubError::MissingChapterReference { id: "missing".to_string() });
}

#[test]
fn a_spine_id_of_a_document_that_is_no_markup_rejects_the_book() {
    let manifest = [
        item("a", "a.html"),
        "<item id=\"pic\" href=\"p.jpg\" media-type=\"image/jpeg\"/>".to_string(),
    ]
    .concat();
    let spine = [itemref("a"), itemref("pic")].concat();
    let res = parse_opf(descriptor(&manifest, &spine).as_bytes(), "content.opf");
    assert_eq!(res.unwrap_err(), EpubError::MissingChapterReference { id: "pic".to_string() });
}

#[test]
fn an_id_that_the_spine_names_twice_is_one_chapter() {
    let manifest = [item("a", "a.html"), item("b", "b.html")].concat();
    let spine = [itemref("a"), itemref("b"), itemref("a"), itemref("a")].concat();
    let (_, paths) = parse_opf(descriptor(&manifest, &spine).as_bytes(), "content.opf").unwrap();
    assert_eq!(paths, vec!["a.html", "b.html"]);
}

#[test]
fn navigation_and_cover_are_no_chapters() {
    let manifest = [item("nav", "nav.html"), item("a", "a.html")].concat();
    let spine = [itemref("nav"), itemref("mycover"), itemref("a"), itemref("navigation2")].concat();
    let (metadata, paths) =
        parse_opf(descriptor(&manifest, &spine).as_bytes(), "x/y/content.opf").unwrap();
    assert_eq!(paths, vec!["x/y/a.html"]);
    assert_eq!(metadata.title.as_deref(), Some("T"));
}

#[test]
fn of_two_items_with_one_id_the_later_counts() {
    let manifest = [item("a", "first.html"), item("a", "second.html")].concat();
    let (_, paths) =
        parse_opf(descriptor(&manifest, &itemref("a")).as_bytes(), "content.opf").unwrap();
    assert_eq!(paths, vec!["second.html"]);
}

#[test]
fn hrefs_are_resolved_against_the_descriptor_directory() {
    let manifest = [item("a", "../Text/a.html"), item("b", "./b&amp;c.html")].concat();
    let spine = [itemref("a"), itemref("b")].concat();
    let (_, paths) =
        parse_opf(descriptor(&manifest, &spine).as_bytes(), "OEBPS/content.opf").unwrap();
    assert_eq!(paths, vec!["Text/a.html", "OEBPS/b&c.html"]);
}

#[test]
fn a_descriptor_that_is_not_well_formed_is_rejected() {
    let res = parse_opf(b"<package><manifest><item id=\"a\"", "content.opf");
    assert_eq!(res.unwrap_err(), EpubError::MalformedXml);
    let res = parse_opf(b"<package><manifest></package>", "content.opf");
    assert_eq!(res.unwrap_err(), EpubError::MalformedXml);
    assert_eq!(read_document(b"<a><!-").unwrap_err(), EpubError::MalformedXml);
    assert_eq!(read_document(b"").unwrap_err(), EpubError::MalformedXml);
    assert_eq!(Package::from_opf(b"<a>&bogus;</a>").unwrap_err(), EpubError::MalformedXml);
}

#[test]
fn an_attribute_that_cannot_be_read_rejects_the_descriptor() {
    let res = parse_opf(b"<package><manifest><item id=a href=\"x\"/></manifest></package>", "c.opf");
    assert_eq!(res.unwrap_err(), EpubError::MalformedXml);
    let res = parse_opf(
        b"<package><manifest><item id=\"a&bogus;\" href=\"x\"/></manifest></package>",
        "c.opf",
    );
    assert_eq!(res.unwrap_err(), EpubError::MalformedXml);
}

#[test]
fn manifest_and_spine_into_map_and_hrefs() {
    let manifest = Manifest {
        items: vec![
            ManifestItem {
                id: "a".to_string(),
                href: "a.html".to_string(),
                media_type: "application/xhtml+xml".to_string(),
            },
            ManifestItem {
                id: "cover".to_string(),
                href: "cover.html".to_string(),
                media_type: "application/xhtml+xml".to_string(),
            },
            ManifestItem {
                id: "css".to_string(),
                href: "s.css".to_string(),
                media_type: "text/css".to_string(),
            },
        ],
    };
    let map = manifest.into_map();
    assert_eq!(map.len(), 1);
    assert_eq!(map.get("a").map(String::as_str), Some("a.html"));
    let spine = Spine {
        itemrefs: vec![ItemRef { idref: "a".to_string() }, ItemRef { idref: "a".to_string() }],
    };
    assert_eq!(spine.into_hrefs(map), Ok(vec!["a.html".to_string()]));

    let manifest = Manifest { items: vec![] };
    let spine = Spine { itemrefs: vec![ItemRef { idref: "css".to_string() }] };
    assert_eq!(
        spine.into_hrefs(manifest.into_map()),
        Err(EpubError::MissingChapterReference { id: "css".to_string() })
    );
}

const CONTAINER: &[u8] = br#"<?xml version="1.0"?>
<container version="1.0" xmlns="urn:oasis:names:tc:opendocument:xmlns:container">
  <rootfiles>
    <rootfile full-path="OEBPS/content.opf" media-type="application/oebps-package+xml"/>
    <rootfile full-path="other.opf" media-type="application/oebps-package+xml"/>
  </rootfiles>
</container>"#;

#[test]
fn the_bootstrap_file_names_the_descriptor() {
    assert_eq!(get_opf_path(CONTAINER), Ok("OEBPS/content.opf".to_string()));
    assert_eq!(extract_opf_path(CONTAINER), Ok("OEBPS/content.opf".to_string()));
}

#[test]
fn a_rootfile_outside_rootfiles_does_not_count() {
    let outside = b"<container><rootfile full-path=\"a.opf\"/></container>";
    assert_eq!(get_opf_path(outside), Err(EpubError::DescriptorNotFound));
    assert_eq!(extract_opf_path(outside), Err(EpubError::DescriptorNotFound));
    let both = b"<c><rootfiles></rootfiles><rootfile full-path=\"a.opf\"/><rootfiles><rootfile full-path=\"b.opf\"/></rootfiles></c>";
    assert_eq!(get_opf_path(both), Ok("b.opf".to_string()));
    assert_eq!(extract_opf_path(both), Ok("b.opf".to_string()));
}

#[test]
fn a_rootfile_without_path_is_passed_over() {
    let second = b"<rootfiles><rootfile/><rootfile full-path=\"b.opf\"></rootfile></rootfiles>";
    assert_eq!(get_opf_path(second), Ok("b.opf".to_string()));
    assert_eq!(extract_opf_path(second), Ok("b.opf".to_string()));
    let none = b"<rootfiles><rootfile/></rootfiles>";
    assert_eq!(get_opf_path(none), Err(EpubError::DescriptorNotFound));
    assert_eq!(extract_opf_path(none), Err(EpubError::DescriptorNotFound));
    assert_eq!(extract_opf_path(b""), Err(EpubError::DescriptorNotFound));
}

#[test]
fn a_bootstrap_file_that_cannot_be_tokenized_is_rejected() {
    let cut = b"<rootfiles><rootfile full-path=\"a.opf\"";
    assert_eq!(get_opf_path(cut), Err(EpubError::MalformedXml));
    assert_eq!(extract_opf_path(cut), Err(EpubError::MalformedXml));
    let broken = b"<rootfiles><rootfile broken full-path=\"a.opf\"/></rootfiles>";
    assert_eq!(get_opf_path(broken), Err(EpubError::MalformedXml));
    assert_eq!(extract_opf_path(broken), Err(EpubError::MalformedXml));
    assert_eq!(get_opf_path(b""), Err(EpubError::MalformedXml));
}

#[test]
fn the_streaming_locator_reads_no_further_than_the_path() {
    let tail = b"<rootfiles><rootfile full-path=\"a.opf\"/></rootfiles><!-";
    assert_eq!(extract_opf_path(tail), Ok("a.opf".to_string()));
    assert_eq!(get_opf_path(tail), Err(EpubError::MalformedXml));
}

#[test]
fn the_streaming_locator_takes_the_path_as_written() {
    assert_eq!(
        extract_opf_path(b"<rootfiles><rootfile full-path=\"a&amp;b.opf\"/></rootfiles>"),
        Ok("a&amp;b.opf".to_string())
    );
    assert_eq!(
        get_opf_path(b"<rootfiles><rootfile full-path=\"a&amp;b.opf\"/></rootfiles>"),
        Ok("a&b.opf".to_string())
    );
    assert_eq!(
        extract_opf_path(b"<rootfiles><rootfile full-path=\"\xff.opf\"/></rootfiles>"),
        Err(EpubError::MalformedXml)
    );
}

#[test]
fn the_full_path_is_read_in_attribute_order() {
    let attributes: Vec<RawAttribute> = vec![
        Some((b"media-type".to_vec(), b"x".to_vec())),
        Some((b"full-path".to_vec(), "책.opf".as_bytes().to_vec())),
        None,
    ];
    assert_eq!(read_full_path(&attributes), Ok(Some("책.opf".to_string())));
    assert_eq!(read_full_path(&attributes[..1]), Ok(None));
    assert_eq!(read_full_path(&attributes[2..]), Err(EpubError::MalformedXml));
    let prefixed: Vec<RawAttribute> = vec![Some((b"x:full-path".to_vec(), b"a".to_vec()))];
    assert_eq!(read_full_path(&prefixed), Ok(None));
}

fn open(name: &str, attributes: &[(&str, &str)]) -> XmlToken {
    XmlToken::Open {
        name: name.to_string(),
        attributes: attributes.iter().map(|(k, v)| (k.to_string(), v.to_string())).collect(),
    }
}

fn close(name: &str) -> XmlToken {
    XmlToken::Close { name: name.to_string() }
}

fn text(t: &str) -> XmlToken {
    XmlToken::Text { text: t.to_string() }
}

#[test]
fn the_descriptor_path_is_found_in_tokens() {
    let tokens = vec![
        open("rootfile", &[("full-path", "outside.opf")]),
        open("rootfiles", &[]),
        open("rootfile", &[("media-type", "x")]),
        close("rootfile"),
        text("full-path"),
        open("rootfile", &[("media-type", "x"), ("full-path", "in.opf"), ("full-path", "no.opf")]),
        open("rootfile", &[("full-path", "later.opf")]),
    ];
    assert_eq!(find_opf_path(&tokens), Some("in.opf".to_string()));
    assert_eq!(find_opf_path(&tokens[..5]), None);
    let reopened = vec![open("rootfiles", &[]), close("rootfiles"), open("rootfile", &[("full-path", "x")])];
    assert_eq!(find_opf_path(&reopened), None);
    assert_eq!(find_opf_path(&[]), None);
}

#[test]
fn metadata_is_read_from_tokens() {
    let tokens = vec![
        open("title", &[]),
        text("outside the block"),
        close("title"),
        open("metadata", &[]),
        open("title", &[]),
        text("  Tom & Jerry\n"),
        close("title"),
        text("between"),
        open("creator", &[("id", "c1"), ("role", "edt")]),
        text("First"),
        close("creator"),
        open("creator", &[]),
        text("Sec"),
        XmlToken::Other,
        text("ond"),
        close("creator"),
        open("meta", &[("name", "x")]),
        text("ignored"),
        close("meta"),
        open("subject", &[]),
        text("one"),
        open("b", &[]),
        text("nested"),
        close("b"),
        text("tail"),
        close("subject"),
        open("language", &[]),
        text("en"),
        close("language"),
        open("language", &[]),
        text(" ko "),
        close("language"),
        close("metadata"),
        open("description", &[]),
        text("late"),
        close("description"),
    ];
    let metadata = parse_metadata(&tokens);
    assert_eq!(metadata.title.as_deref(), Some("Tom & Jerry"));
    assert_eq!(metadata.creators.len(), 2);
    assert_eq!(metadata.creators[0].name, "First");
    assert_eq!(metadata.creators[0].role.as_deref(), Some("edt"));
    assert_eq!(metadata.creators[1].name, "Second");
    assert_eq!(metadata.creators[1].role, None);
    assert_eq!(metadata.subjects, vec!["one"]);
    assert_eq!(metadata.language.as_deref(), Some("ko"));
    assert_eq!(metadata.description, None);
}

#[test]
fn the_metadata_scan_works_token_by_token() {
    let mut scan = MetadataScan::new();
    scan.step(&open("metadata", &[]));
    assert!(scan.inside);
    scan.step(&open("creator", &[("role", "trl")]));
    assert_eq!(scan.field, MetaField::Creator);
    assert_eq!(scan.role.as_deref(), Some("trl"));
    scan.step(&text(" A "));
    scan.step(&text("B "));
    assert_eq!(scan.value, " A B ");
    scan.step(&close("creator"));
    assert_eq!(scan.field, MetaField::Other);
    assert_eq!(scan.value, "");
    assert_eq!(scan.role, None);
    assert_eq!(scan.metadata.creators[0].name, "A B");
    assert_eq!(scan.metadata.creators[0].role.as_deref(), Some("trl"));
    scan.step(&close("metadata"));
    assert!(!scan.inside);
    assert_eq!(field_named("title"), MetaField::Title);
    assert_eq!(field_named("language"), MetaField::Language);
    assert_eq!(field_named("description"), MetaField::Description);
    assert_eq!(field_named("subject"), MetaField::Subject);
    assert_eq!(field_named("Title"), MetaField::Other);
}

#[test]
fn manifest_and_spine_are_read_from_tokens() {
    let tokens = vec![
        open("item", &[("id", "early"), ("href", "e.html")]),
        open("manifest", &[]),
        open("item", &[("id", "a"), ("href", "a.html"), ("media-type", "text/html")]),
        close("item"),
        open("item", &[("id", "b"), ("href", "b.html")]),
        open("item", &[("id", "no-href")]),
        open("item", &[("href", "no-id")]),
        close("manifest"),
        open("spine", &[]),
        open("itemref", &[("idref", "a")]),
        open("itemref", &[("linear", "no")]),
        open("itemref", &[("idref", "nav")]),
        open("itemref", &[("idref", "the-cover-page")]),
        close("spine"),
        open("itemref", &[("idref", "late")]),
    ];
    let manifest = parse_manifest(&tokens);
    assert_eq!(manifest.items.len(), 2);
    assert_eq!(manifest.items[0].id, "a");
    assert_eq!(manifest.items[0].media_type, "text/html");
    assert_eq!(manifest.items[1].href, "b.html");
    assert_eq!(manifest.items[1].media_type, "");
    let spine = parse_spine(&tokens);
    assert_eq!(spine.itemrefs.len(), 1);
    assert_eq!(spine.itemrefs[0].idref, "a");
    let package = Package::from_tokens(&tokens);
    assert_eq!(package.manifest.items.len(), 2);
    assert_eq!(package.spine.itemrefs.len(), 1);
    assert_eq!(package.metadata.title, None);
}

#[test]
fn the_first_attribute_of_a_name_is_read() {
    let attributes = vec![
        ("role".to_string(), "first".to_string()),
        ("id".to_string(), "x".to_string()),
        ("role".to_string(), "second".to_string()),
    ];
    assert_eq!(read_attribute(&attributes, "role"), Some("first".to_string()));
    assert_eq!(read_attribute(&attributes, "id"), Some("x".to_string()));
    assert_eq!(read_attribute(&attributes, "href"), None);
    assert_eq!(read_attribute(&[], "id"), None);
}

#[test]
fn an_item_needs_an_id_and_a_place() {
    let full = vec![("href".to_string(), "a.html".to_string()), ("id".to_string(), "a".to_string())];
    let found = read_item(&full).unwrap();
    assert_eq!(found.id, "a");
    assert_eq!(found.href, "a.html");
    assert_eq!(found.media_type, "");
    assert!(read_item(&full[..1]).is_none());
    assert!(read_item(&full[1..]).is_none());
}

#[test]
fn tokens_come_in_document_order() {
    let tokens = read_document(b"<a xmlns:p=\"urn:x\" p:x=\"1&lt;\"> t&amp;u <p:b/>\n</a>").unwrap();
    let tokens: Vec<&XmlToken> = tokens.iter().filter(|t| **t != XmlToken::Other).collect();
    assert_eq!(tokens.len(), 5);
    assert_eq!(*tokens[0], open("a", &[("x", "1<")]));
    assert_eq!(*tokens[1], text(" t&u "));
    assert_eq!(*tokens[2], open("b", &[]));
    assert_eq!(*tokens[3], close("b"));
    assert_eq!(*tokens[4], close("a"));
}
