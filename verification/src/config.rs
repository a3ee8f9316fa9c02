//! What a run is configured with: where it reads and writes, what it writes,
//! and the three sets of tag names that steer the extraction of text.

use vstd::prelude::*;
use vstd::string::StrSliceExecFns;
use vstd::string::StringExecFns;
use vstd::utf8::encode_utf8;
use ahash::AHashSet;
use crate::lookup::{new_set, set_contains, set_insert, set_items};

verus! {

/// Which outputs a run writes.
#[derive(Debug, Clone, Copy)]
pub struct Options {
    /// One file per chapter.
    pub split: bool,
    /// One file with all chapters.
    pub combine: bool,
    /// The metadata of the book.
    pub metadata: bool,
}

impl Default for Options {
    /// Every output is written.
    fn default() -> (options: Self)
        ensures
            options.split,
            options.combine,
            options.metadata,
    {
        Options { split: true, combine: true, metadata: true }
    }
}

impl Options {
    /// Whether a run has to read the chapters at all: it writes chapters one
    /// by one or as a whole.
    pub fn reads_chapters(&self) -> (needed: bool)
        ensures
            needed == (self.split || self.combine),
    {
        self.split || self.combine
    }
}

/// The tag names of a configuration as they are written down: three lists of
/// words.
#[derive(Debug)]
pub struct RawTags {
    pub title: Vec<String>,
    pub block: Vec<String>,
    pub inline: Vec<String>,
}

/// The characters of each word.
pub open spec fn words(list: Seq<String>) -> Seq<Seq<char>> {
    Seq::new(list.len(), |i: int| list[i]@)
}

/// The set of the words of a list, each as the bytes that encode it.
pub open spec fn name_set(list: Seq<Seq<char>>) -> Set<Seq<u8>>
    decreases list.len(),
{
    if list.len() == 0 {
        Set::empty()
    } else {
        name_set(list.drop_last()).insert(encode_utf8(list.last()))
    }
}

/// The title tags of the default configuration.
pub open spec fn default_title_words() -> Seq<Seq<char>> {
    seq!["h1"@, "title"@]
}

/// The block tags of the default configuration.
pub open spec fn default_block_words() -> Seq<Seq<char>> {
    seq!["p"@, "div"@, "li"@, "ul"@, "section"@, "br"@]
}

/// The inline tags of the default configuration, as they are written down.
pub open spec fn default_inline_words() -> Seq<Seq<char>> {
    seq!["em"@, "span"@, "a"@, "strong"@, "em"@, "code"@, "sub"@, "sup"@]
}

impl Default for RawTags {
    /// The tags of an ordinary book: headings as titles, paragraphs and their
    /// like as blocks, emphasis and its like as inline text.
    fn default() -> (raw: Self)
        ensures
            words(raw.title@) == default_title_words(),
            words(raw.block@) == default_block_words(),
            words(raw.inline@) == default_inline_words(),
    {
        let mut title: Vec<String> = Vec::new();
        title.push(String::from_str("h1"));
        title.push(String::from_str("title"));
        let mut block: Vec<String> = Vec::new();
        block.push(String::from_str("p"));
        block.push(String::from_str("div"));
        block.push(String::from_str("li"));
        block.push(String::from_str("ul"));
        block.push(String::from_str("section"));
        block.push(String::from_str("br"));
        let mut inline: Vec<String> = Vec::new();
        inline.push(String::from_str("em"));
        inline.push(String::from_str("span"));
        inline.push(String::from_str("a"));
        inline.push(String::from_str("strong"));
        inline.push(String::from_str("em"));
        inline.push(String::from_str("code"));
        inline.push(String::from_str("sub"));
        inline.push(String::from_str("sup"));
        assert(words(title@) =~= default_title_words());
        assert(words(block@) =~= default_block_words());
        assert(words(inline@) =~= default_inline_words());
        RawTags { title, block, inline }
    }
}

/// How the extraction treats a tag.
#[derive(Debug, Clone, Copy, PartialEq, Eq, Structural)]
pub enum TagClass {
    /// Its text is the title of the chapter.
    Title,
    /// Its text is content, and a line ends where the tag closes.
    Block,
    /// Its text is content.
    Inline,
    /// Its text is dropped.
    Unclassified,
}

/// The three sets of tag names, each name as bytes.
#[derive(Debug)]
pub struct Tags {
    pub title: AHashSet<Vec<u8>>,
    pub block: AHashSet<Vec<u8>>,
    pub inline: AHashSet<Vec<u8>>,
}

/// The three sets as sets of byte strings.
pub struct TagsView {
    pub title: Set<Seq<u8>>,
    pub block: Set<Seq<u8>>,
    pub inline: Set<Seq<u8>>,
}

impl View for Tags {
    type V = TagsView;

    open spec fn view(&self) -> TagsView {
        TagsView {
            title: set_items(self.title),
            block: set_items(self.block),
            inline: set_items(self.inline),
        }
    }
}

/// The class of a tag name: a title where the title set holds it, else a
/// block where the block set holds it, else inline where the inline set holds
/// it.
pub open spec fn class_of(tags: TagsView, name: Seq<u8>) -> TagClass {
    if tags.title.contains(name) {
        TagClass::Title
    } else if tags.block.contains(name) {
        TagClass::Block
    } else if tags.inline.contains(name) {
        TagClass::Inline
    } else {
        TagClass::Unclassified
    }
}

/// The sets of the default configuration.
pub open spec fn default_tags() -> TagsView {
    TagsView {
        title: name_set(default_title_words()),
        block: name_set(default_block_words()),
        inline: name_set(default_inline_words()),
    }
}

/// The set of the words of a list.
fn to_name_set(list: &Vec<String>) -> (set: AHashSet<Vec<u8>>)
    ensures
        set_items(set) == name_set(words(list@)),
{
    let mut set = new_set();
    let mut i: usize = 0;
    assert(words(list@).take(0) =~= Seq::<Seq<char>>::empty());
    while i < list.len()
        invariant
            i <= list.len(),
            set_items(set) == name_set(words(list@).take(i as int)),
        decreases list.len() - i,
    {
        assert(words(list@).take(i + 1).drop_last() =~= words(list@).take(i as int));
        let bytes = list[i].as_str().as_bytes_vec();
        set_insert(&mut set, bytes);
        i += 1;
    }
    assert(words(list@).take(list.len() as int) =~= words(list@));
    set
}

impl Tags {
    /// The sets that hold the words of the three lists.
    pub fn from(raw: RawTags) -> (tags: Tags)
        ensures
            tags@.title == name_set(words(raw.title@)),
            tags@.block == name_set(words(raw.block@)),
            tags@.inline == name_set(words(raw.inline@)),
    {
        Tags {
            title: to_name_set(&raw.title),
            block: to_name_set(&raw.block),
            inline: to_name_set(&raw.inline),
        }
    }

    /// The class of the tag `name`.
    pub fn classify(&self, name: &[u8]) -> (class: TagClass)
        ensures
            class == class_of(self@, name@),
    {
        if set_contains(&self.title, name) {
            TagClass::Title
        } else if set_contains(&self.block, name) {
            TagClass::Block
        } else if set_contains(&self.inline, name) {
            TagClass::Inline
        } else {
            TagClass::Unclassified
        }
    }

    /// Whether a line ends where the tag `name` closes.
    pub fn is_block(&self, name: &[u8]) -> (block: bool)
        ensures
            block == self@.block.contains(name@),
    {
        set_contains(&self.block, name)
    }
}

impl Default for Tags {
    fn default() -> (tags: Self)
        ensures
            tags@ == default_tags(),
    {
        Tags::from(RawTags::default())
    }
}

/// The configuration of a run.
#[derive(Debug)]
pub struct Config {
    /// The directory that the results are written under.
    pub output_dir: String,
    /// The directory that holds the books.
    pub input_dir: String,
    /// The line between two chapters of a combined file.
    pub separator: String,
    pub tags: Tags,
    pub options: Options,
}

impl Default for Config {
    fn default() -> (config: Self)
        ensures
            config.output_dir@ == "output"@,
            config.input_dir@ == "input"@,
            config.separator@ == ""@,
            config.tags@ == default_tags(),
            config.options.split && config.options.combine && config.options.metadata,
    {
        Config {
            output_dir: String::from_str("output"),
            input_dir: String::from_str("input"),
            separator: String::from_str(""),
            tags: Tags::default(),
            options: Options::default(),
        }
    }
}

} // verus!
