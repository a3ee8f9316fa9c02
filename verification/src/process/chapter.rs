//! One chapter: its title and its text, taken from the markup of one document
//! in a single pass over its tokens.

use vstd::prelude::*;
use vstd::string::StringExecFns;
use crate::config::{class_of, TagClass, Tags, TagsView};
use crate::markup::{
    markup_events, open_reader, pending_events, read_token, unescape, unescaped, MarkupToken,
    ReadOutcome, TokenView,
};
use crate::process::{EpubError, EpubErrorView};
use crate::text::{
    end_of_spaces, from_chars_between, is_space, lemma_skip_spaces_once, matches_at, skip_spaces,
    to_chars,
};

verus! {

/// A chapter of a book as plain text.
#[derive(Debug)]
pub struct Chapter {
    /// The title; empty where the document has none.
    pub title: String,
    /// The text, one line for each block of the document.
    pub content: String,
}

/// A chapter as plain values.
pub struct ChapterView {
    pub title: Seq<char>,
    pub content: Seq<char>,
}

impl View for Chapter {
    type V = ChapterView;

    open spec fn view(&self) -> ChapterView {
        ChapterView { title: self.title@, content: self.content@ }
    }
}

/// What an extraction knows in the middle of a document.
#[derive(Debug)]
pub struct Extraction {
    /// The names of the tags that are open, the innermost last.
    pub stack: Vec<Vec<u8>>,
    pub title: String,
    pub content: String,
    /// The text read since the last tag, where `in_run` is set.
    pub run: String,
    /// Whether text has been read since the last tag.
    pub in_run: bool,
}

/// An extraction as plain values.
pub struct ExtractionView {
    pub stack: Seq<Seq<u8>>,
    pub title: Seq<char>,
    pub content: Seq<char>,
    /// The text read since the last tag, if any was.
    pub run: Option<Seq<char>>,
}

impl View for Extraction {
    type V = ExtractionView;

    open spec fn view(&self) -> ExtractionView {
        ExtractionView {
            stack: Seq::new(self.stack@.len(), |i: int| self.stack@[i]@),
            title: self.title@,
            content: self.content@,
            run: if self.in_run {
                Some(self.run@)
            } else {
                None
            },
        }
    }
}

/// The extraction before the first token.
pub open spec fn start() -> ExtractionView {
    ExtractionView { stack: Seq::empty(), title: Seq::empty(), content: Seq::empty(), run: None }
}

/// A piece of text joins the text read since the last tag.
pub open spec fn with_text(s: ExtractionView, text: Seq<char>) -> ExtractionView {
    ExtractionView {
        run: Some(
            match s.run {
                Some(run) => run + text,
                None => text,
            },
        ),
        ..s
    }
}

/// The text read since the last tag is put where the innermost open tag
/// sends it: it becomes the title inside a title tag, it is appended to the
/// content inside a block or inline tag, and it is dropped inside any other
/// tag and outside all tags.
pub open spec fn flushed(s: ExtractionView, tags: TagsView) -> ExtractionView {
    match s.run {
        None => s,
        Some(text) => {
            if s.stack.len() == 0 {
                ExtractionView { run: None, ..s }
            } else {
                match class_of(tags, s.stack.last()) {
                    TagClass::Title => ExtractionView { title: text, run: None, ..s },
                    TagClass::Block | TagClass::Inline => ExtractionView {
                        content: s.content + text,
                        run: None,
                        ..s
                    },
                    TagClass::Unclassified => ExtractionView { run: None, ..s },
                }
            }
        },
    }
}

/// A tag opens: pending text is placed, and the tag becomes the innermost.
pub open spec fn opened(s: ExtractionView, name: Seq<u8>, tags: TagsView) -> ExtractionView {
    let f = flushed(s, tags);
    ExtractionView { stack: f.stack.push(name), ..f }
}

/// A tag closes: pending text is placed, the innermost open tag is closed
/// whatever its name, and a line ends where the closing tag names a block.
pub open spec fn closed(s: ExtractionView, name: Seq<u8>, tags: TagsView) -> ExtractionView {
    let f = flushed(s, tags);
    ExtractionView {
        stack: if f.stack.len() > 0 {
            f.stack.drop_last()
        } else {
            f.stack
        },
        content: if tags.block.contains(name) {
            f.content.push('\n')
        } else {
            f.content
        },
        ..f
    }
}

/// What the reference `&entity;` stands for.
pub open spec fn reference_text(entity: Seq<char>) -> Option<Seq<char>> {
    unescaped(seq!['&'] + entity + seq![';'])
}

/// The extraction after one more token.
pub open spec fn after_token(s: ExtractionView, token: TokenView, tags: TagsView) -> Result<
    ExtractionView,
    EpubErrorView,
> {
    match token {
        TokenView::Open { name, attributes } => Ok(opened(s, name, tags)),
        TokenView::Close { name } => Ok(closed(s, name, tags)),
        TokenView::Text { text } => Ok(with_text(s, text)),
        TokenView::Reference { entity } => match reference_text(entity) {
            Some(text) => Ok(with_text(s, text)),
            None => Err(EpubErrorView::MalformedMarkup),
        },
        TokenView::Other => Ok(flushed(s, tags)),
        TokenView::End => Ok(flushed(s, tags)),
    }
}

/// The chapter that an extraction ends with.
pub open spec fn finished(s: ExtractionView, tags: TagsView) -> ChapterView {
    let f = flushed(s, tags);
    ChapterView { title: f.title, content: f.content }
}

/// The chapter that a run of reads gives to an extraction: each token in
/// turn, up to the end of the document; the document is rejected where a read
/// fails or a reference stands for nothing.
pub open spec fn chapter_from(events: Seq<ReadOutcome>, s: ExtractionView, tags: TagsView) -> Result<
    ChapterView,
    EpubErrorView,
>
    decreases events.len(),
{
    if events.len() == 0 {
        Ok(finished(s, tags))
    } else {
        match events[0] {
            ReadOutcome::Failure => Err(EpubErrorView::MalformedMarkup),
            ReadOutcome::Token(TokenView::End) => Ok(finished(s, tags)),
            ReadOutcome::Token(token) => match after_token(s, token, tags) {
                Ok(next) => chapter_from(events.drop_first(), next, tags),
                Err(e) => Err(e),
            },
        }
    }
}

/// Every read gives a token, and every reference stands for something.
pub open spec fn readable(events: Seq<ReadOutcome>) -> bool {
    forall|i: int|
        0 <= i < events.len() ==> match #[trigger] events[i] {
            ReadOutcome::Failure => false,
            ReadOutcome::Token(TokenView::Reference { entity }) => reference_text(entity) is Some,
            ReadOutcome::Token(_) => true,
        }
}

/// Tags never reject a chapter: whatever opens and closes, in whatever order
/// and under whatever names, a document whose reads all give a token and
/// whose references all stand for something has a chapter.
pub proof fn lemma_tags_never_reject(events: Seq<ReadOutcome>, s: ExtractionView, tags: TagsView)
    requires
        readable(events),
    ensures
        chapter_from(events, s, tags) is Ok,
    decreases events.len(),
{
    if events.len() > 0 {
        let rest = events.drop_first();
        assert forall|i: int| 0 <= i < rest.len() implies match #[trigger] rest[i] {
            ReadOutcome::Failure => false,
            ReadOutcome::Token(TokenView::Reference { entity }) => reference_text(entity) is Some,
            ReadOutcome::Token(_) => true,
        } by {
            assert(rest[i] == events[i + 1]);
        }
        match events[0] {
            ReadOutcome::Failure => {},
            ReadOutcome::Token(TokenView::End) => {},
            ReadOutcome::Token(token) => {
                lemma_tags_never_reject(rest, after_token(s, token, tags)->Ok_0, tags);
            },
        }
    }
}

/// What the reference `&entity;` stands for, if anything.
pub fn decode_reference(entity: &str) -> (text: Option<String>)
    ensures
        text is Some <==> reference_text(entity@) is Some,
        text matches Some(t) ==> reference_text(entity@) == Some(t@),
{
    let mut raw = String::from_str("&");
    raw.append(entity);
    raw.append(";");
    proof {
        reveal_strlit("&");
        reveal_strlit(";");
        assert(raw@ =~= seq!['&'] + entity@ + seq![';']);
    }
    match unescape(raw.as_str()) {
        Ok(text) => Some(text),
        Err(_) => None,
    }
}

impl Extraction {
    /// The extraction before the first token.
    pub fn new() -> (s: Extraction)
        ensures
            s@ == start(),
    {
        let s = Extraction {
            stack: Vec::new(),
            title: String::new(),
            content: String::new(),
            run: String::new(),
            in_run: false,
        };
        assert(s@.stack =~= Seq::<Seq<u8>>::empty());
        s
    }

    /// Takes a piece of text.
    pub fn absorb_text(&mut self, text: &str)
        ensures
            final(self)@ == with_text(old(self)@, text@),
    {
        if self.in_run {
            self.run.append(text);
        } else {
            self.run = String::from_str(text);
            self.in_run = true;
        }
    }

    /// Places the text read since the last tag.
    pub fn flush(&mut self, tags: &Tags)
        ensures
            final(self)@ == flushed(old(self)@, tags@),
    {
        if self.in_run {
            self.in_run = false;
            if self.stack.len() > 0 {
                let top = self.stack.len() - 1;
                match tags.classify(self.stack[top].as_slice()) {
                    TagClass::Title => {
                        self.title = self.run.clone();
                    },
                    TagClass::Block | TagClass::Inline => {
                        self.content.append(self.run.as_str());
                    },
                    TagClass::Unclassified => {},
                }
            }
        }
    }

    /// Takes an opening tag.
    pub fn open(&mut self, name: Vec<u8>, tags: &Tags)
        ensures
            final(self)@ == opened(old(self)@, name@, tags@),
    {
        self.flush(tags);
        let ghost before = self@.stack;
        self.stack.push(name);
        assert(self@.stack =~= before.push(name@));
    }

    /// Takes a closing tag.
    pub fn close(&mut self, name: &[u8], tags: &Tags)
        ensures
            final(self)@ == closed(old(self)@, name@, tags@),
    {
        self.flush(tags);
        let ghost before = self@.stack;
        if self.stack.len() > 0 {
            self.stack.pop();
            assert(self@.stack =~= before.drop_last());
        }
        if tags.is_block(name) {
            self.content.push('\n');
        }
    }

    /// Takes one token. The extraction is left as it is where the token is a
    /// reference that stands for nothing.
    pub fn step(&mut self, token: MarkupToken, tags: &Tags) -> (res: Result<(), EpubError>)
        ensures
            match after_token(old(self)@, token@, tags@) {
                Ok(next) => res is Ok && final(self)@ == next,
                Err(e) => res matches Err(err) && err@ == e && final(self)@ == old(self)@,
            },
    {
        match token {
            MarkupToken::Open { name, attributes } => {
                self.open(name, tags);
            },
            MarkupToken::Close { name } => {
                self.close(name.as_slice(), tags);
            },
            MarkupToken::Text { text } => {
                self.absorb_text(text.as_str());
            },
            MarkupToken::Reference { entity } => {
                match decode_reference(entity.as_str()) {
                    Some(text) => {
                        self.absorb_text(text.as_str());
                    },
                    None => {
                        return Err(EpubError::MalformedMarkup);
                    },
                }
            },
            MarkupToken::Other => {
                self.flush(tags);
            },
            MarkupToken::End => {
                self.flush(tags);
            },
        }
        Ok(())
    }

    /// Ends the extraction.
    pub fn finish(self, tags: &Tags) -> (chapter: Chapter)
        ensures
            chapter@ == finished(self@, tags@),
    {
        let mut s = self;
        s.flush(tags);
        Chapter { title: s.title, content: s.content }
    }
}

impl Chapter {
    /// The text of the file of a chapter: the title, an empty line, the
    /// content.
    pub fn file_text(&self) -> (text: String)
        ensures
            text@ == self.title@ + seq!['\n', '\n'] + self.content@ + seq!['\n'],
    {
        let mut text = self.title.clone();
        text.push('\n');
        text.push('\n');
        text.append(self.content.as_str());
        text.push('\n');
        assert(text@ =~= self.title@ + seq!['\n', '\n'] + self.content@ + seq!['\n']);
        text
    }

    /// What a chapter adds to the file of the whole book: its own text, an
    /// empty line, the separator, an empty line.
    pub fn combined_text(&self, separator: &str) -> (text: String)
        ensures
            text@ == self.title@ + seq!['\n', '\n'] + self.content@ + seq!['\n', '\n'] + separator@
                + seq!['\n', '\n'],
    {
        let mut text = self.file_text();
        text.push('\n');
        text.append(separator);
        text.push('\n');
        text.push('\n');
        assert(text@ =~= self.title@ + seq!['\n', '\n'] + self.content@ + seq!['\n', '\n']
            + separator@ + seq!['\n', '\n']);
        text
    }

    /// The chapter without the title at the front of its content, for
    /// documents that repeat their title as the first line of the body.
    pub fn without_title_line(self) -> (chapter: Chapter)
        ensures
            chapter@.title == self@.title,
            chapter@.content == stripped(self@.content, self@.title),
    {
        let content = strip_leading_title(self.content.as_str(), self.title.as_str());
        Chapter { title: self.title, content }
    }

    /// The chapter in the markup `bytes`: the text of the last title tag as
    /// the title, the text of block and inline tags as the content, with a new
    /// line behind each block. Tags that do not match are tolerated; the
    /// document is rejected where it cannot be tokenized or a reference stands
    /// for nothing.
    pub fn extract_chapter(bytes: &[u8], tags: &Tags) -> (res: Result<Chapter, EpubError>)
        ensures
            match chapter_from(markup_events(bytes@), start(), tags@) {
                Ok(chapter) => res matches Ok(c) && c@ == chapter,
                Err(e) => res matches Err(err) && err@ == e,
            },
    {
        let mut reader = open_reader(bytes);
        let mut state = Extraction::new();
        loop
            invariant
                chapter_from(pending_events(reader), state@, tags@) == chapter_from(
                    markup_events(bytes@),
                    start(),
                    tags@,
                ),
            decreases pending_events(reader).len(),
        {
            match read_token(&mut reader) {
                Err(_) => {
                    return Err(EpubError::MalformedMarkup);
                },
                Ok(token) => {
                    if let MarkupToken::End = token {
                        return Ok(state.finish(tags));
                    }
                    match state.step(token, tags) {
                        Err(e) => {
                            return Err(e);
                        },
                        Ok(()) => {},
                    }
                },
            }
        }
    }
}

/// `content` without its title line: where `content`, behind the white space
/// it begins with, begins with `title`, what follows that title and the white
/// space behind it; else `content` as it is.
pub open spec fn stripped(content: Seq<char>, title: Seq<char>) -> Seq<char> {
    let body = skip_spaces(content);
    if title.is_prefix_of(body) {
        skip_spaces(body.skip(title.len() as int))
    } else {
        content
    }
}

/// Removes one leading occurrence of the title from the content of a chapter,
/// with the white space around it. The title is matched letter for letter,
/// and only at the front: nothing behind the front is touched.
pub fn strip_leading_title(content: &str, title: &str) -> (out: String)
    ensures
        out@ == stripped(content@, title@),
        out@.is_suffix_of(content@),
{
    let chars = to_chars(content);
    let wanted = to_chars(title);
    let from = end_of_spaces(chars.as_slice(), 0);
    proof {
        assert(chars@.skip(0) =~= chars@);
        let body = chars@.skip(from as int);
        assert(wanted@.is_prefix_of(body) == crate::text::occurs_at(
            chars@,
            wanted@,
            from as int,
        )) by {
            if from + wanted@.len() <= chars@.len() {
                assert(body.subrange(0, wanted@.len() as int) =~= chars@.subrange(
                    from as int,
                    from + wanted@.len(),
                ));
            }
        }
    }
    if matches_at(chars.as_slice(), wanted.as_slice(), from) {
        let behind = from + wanted.len();
        let to = end_of_spaces(chars.as_slice(), behind);
        proof {
            assert(chars@.skip(from as int).skip(wanted@.len() as int) =~= chars@.skip(
                behind as int,
            ));
            assert(chars@.skip(to as int) =~= chars@.subrange(to as int, chars@.len() as int));
        }
        from_chars_between(chars.as_slice(), to, chars.len())
    } else {
        assert(chars@.subrange(0, chars@.len() as int) =~= chars@);
        from_chars_between(chars.as_slice(), 0, chars.len())
    }
}

/// The content begins with the title twice: what is left when the first is
/// removed begins with the title again.
pub open spec fn title_repeats(content: Seq<char>, title: Seq<char>) -> bool {
    &&& title.len() > 0
    &&& title.is_prefix_of(skip_spaces(content))
    &&& title.is_prefix_of(stripped(content, title))
}

/// Removing the title a second time changes nothing, unless the content
/// begins with the title twice.
pub proof fn lemma_stripping_twice_is_stripping_once(content: Seq<char>, title: Seq<char>)
    requires
        !title_repeats(content, title),
    ensures
        stripped(stripped(content, title), title) == stripped(content, title),
{
    let body = skip_spaces(content);
    if title.is_prefix_of(body) {
        let rest = body.skip(title.len() as int);
        lemma_skip_spaces_once(rest);
        let once = skip_spaces(rest);
        if title.len() == 0 {
            assert(once.skip(0) =~= once);
        }
    }
}

/// What is removed stands at the front: the result is the end of the content,
/// and in front of it stand only white space, the title, and white space.
pub proof fn lemma_stripping_removes_the_front(content: Seq<char>, title: Seq<char>)
    ensures
        stripped(content, title).is_suffix_of(content),
        stripped(content, title) != content ==> exists|lead: Seq<char>, gap: Seq<char>|
            #![auto]
            content == lead + title + gap + stripped(content, title) && skip_spaces(lead).len() == 0
                && skip_spaces(gap).len() == 0,
{
    lemma_all_spaces_in_front(content);
    let body = skip_spaces(content);
    if title.is_prefix_of(body) {
        let rest = body.skip(title.len() as int);
        lemma_all_spaces_in_front(rest);
        let lead = content.take(content.len() - body.len());
        let gap = rest.take(rest.len() - skip_spaces(rest).len());
        let out = stripped(content, title);
        assert(body =~= title + rest);
        assert(content =~= lead + title + gap + out);
        assert(out =~= content.skip(content.len() - out.len()));
    } else {
        assert(content =~= content.skip(0));
    }
}

/// What `skip_spaces` skips is white space, and the rest is the end of the
/// text.
proof fn lemma_all_spaces_in_front(s: Seq<char>)
    ensures
        skip_spaces(s).len() <= s.len(),
        skip_spaces(s) == s.skip(s.len() - skip_spaces(s).len()),
        skip_spaces(s.take(s.len() - skip_spaces(s).len())).len() == 0,
    decreases s.len(),
{
    if s.len() > 0 && is_space(s[0]) {
        let tail = s.drop_first();
        lemma_all_spaces_in_front(tail);
        let kept = skip_spaces(tail);
        let n = s.len() - kept.len();
        assert(s.skip(n) =~= tail.skip(tail.len() - kept.len()));
        assert(s.take(n).drop_first() =~= tail.take(tail.len() - kept.len()));
    } else {
        assert(s.skip(0) =~= s);
        assert(s.take(0).len() == 0);
    }
}

} // verus!
