//! The document: what is on disk, its path and whether the editor has moved on.
//!
//! A `Document` is not the live editing buffer. Its rope holds what was last read from disk or
//! written to it. Reading and writing the file itself is up to the caller, who hands in what
//! came of it.
use vstd::prelude::*;
use vstd::utf8::{
    decode_utf8, encode_utf8, encode_utf8_decode_utf8, encode_utf8_valid_utf8, valid_utf8,
};

use ropey::Rope;

use crate::errors::{CoreError, CoreErrorView};
use crate::paths::{file_name, has_file_name, is_portable, opt_view, path_file_name};
use crate::text::byte_len;

verus! {

#[verifier::external_type_specification]
#[verifier::external_body]
pub struct ExRope(ropey::Rope);

/// The characters that a rope holds.
pub uninterp spec fn rope_text(rope: Rope) -> Seq<char>;

/// The characters that end a line: line feed, vertical tab, form feed, carriage return, next
/// line, line separator and paragraph separator.
pub open spec fn is_line_break(c: char) -> bool {
    ||| 0x0A <= c as u32 <= 0x0D
    ||| c as u32 == 0x85
    ||| c as u32 == 0x2028
    ||| c as u32 == 0x2029
}

/// The number of line breaks in a text. A carriage return with its line feed is one.
pub open spec fn line_breaks(s: Seq<char>) -> nat
    decreases s.len(),
{
    if s.len() == 0 {
        0
    } else {
        let pair = s.last() == '\n' && s.len() > 1 && s[s.len() - 2] == '\r';
        line_breaks(s.drop_last()) + if is_line_break(s.last()) && !pair {
            1nat
        } else {
            0nat
        }
    }
}

/// `Rope::new`: an empty rope.
#[verifier::external_body]
fn rope_new() -> (r: Rope)
    ensures
        rope_text(r) == Seq::<char>::empty(),
{
    Rope::new()
}

/// `Rope::from_str`: a rope with the characters of a string.
#[verifier::external_body]
fn rope_from_str(s: &str) -> (r: Rope)
    ensures
        rope_text(r) == s@,
{
    Rope::from_str(s)
}

/// `Rope::from_reader` on bytes in memory: the text that the bytes encode; an error exactly when
/// they are not valid UTF-8.
#[verifier::external_body]
fn rope_from_bytes(bytes: &[u8]) -> (r: Option<Rope>)
    ensures
        r is Some <==> valid_utf8(bytes@),
        r matches Some(rope) ==> rope_text(rope) == decode_utf8(bytes@),
{
    Rope::from_reader(bytes).ok()
}

/// `Rope::clone`: a rope with the same characters.
#[verifier::external_body]
fn rope_clone(rope: &Rope) -> (r: Rope)
    ensures
        rope_text(r) == rope_text(*rope),
{
    rope.clone()
}

/// `Rope`'s conversion to a string: its characters.
#[verifier::external_body]
fn rope_string(rope: &Rope) -> (r: String)
    ensures
        r@ == rope_text(*rope),
{
    rope.to_string()
}

/// `Rope::len_lines`: one more than there are line breaks.
#[verifier::external_body]
fn rope_len_lines(rope: &Rope) -> (r: usize)
    ensures
        r == line_breaks(rope_text(*rope)) + 1,
{
    rope.len_lines()
}

/// `Rope::len_bytes`: the number of bytes of the text in UTF-8.
#[verifier::external_body]
fn rope_len_bytes(rope: &Rope) -> (r: usize)
    ensures
        r == byte_len(rope_text(*rope)),
{
    rope.len_bytes()
}

/// `Rope::len_chars`: the number of characters.
#[verifier::external_body]
fn rope_len_chars(rope: &Rope) -> (r: usize)
    ensures
        r == rope_text(*rope).len(),
{
    rope.len_chars()
}

/// `Rope::char`: the character at an index, which must lie in the rope.
#[verifier::external_body]
fn rope_char(rope: &Rope, index: usize) -> (r: char)
    requires
        index < rope_text(*rope).len(),
    ensures
        r == rope_text(*rope)[index as int],
{
    rope.char(index)
}

/// What came of reading a file.
pub enum FileContent {
    /// The file could not be opened or read.
    Failed(String),
    Bytes(Vec<u8>),
}

/// What came of writing a file.
pub enum WriteOutcome {
    /// The file could not be created.
    CreateFailed(String),
    /// The file was created, but not all of the content was written.
    WriteFailed(String),
    Written,
}

#[verifier::ext_equal]
pub enum WriteOutcomeView {
    CreateFailed(Seq<char>),
    WriteFailed(Seq<char>),
    Written,
}

impl View for WriteOutcome {
    type V = WriteOutcomeView;

    open spec fn view(&self) -> WriteOutcomeView {
        match self {
            WriteOutcome::CreateFailed(e) => WriteOutcomeView::CreateFailed(e@),
            WriteOutcome::WriteFailed(e) => WriteOutcomeView::WriteFailed(e@),
            WriteOutcome::Written => WriteOutcomeView::Written,
        }
    }
}

#[verifier::ext_equal]
pub enum FileContentView {
    Failed(Seq<char>),
    Bytes(Seq<u8>),
}

impl View for FileContent {
    type V = FileContentView;

    open spec fn view(&self) -> FileContentView {
        match self {
            FileContent::Failed(e) => FileContentView::Failed(e@),
            FileContent::Bytes(b) => FileContentView::Bytes(b@),
        }
    }
}

/// The document that a file opens to, or why it does not.
pub open spec fn opened(path: Seq<char>, content: FileContentView) -> Result<
    DocumentView,
    CoreErrorView,
> {
    match content {
        FileContentView::Failed(e) => Err(CoreErrorView::DocumentIo { path, source: e }),
        FileContentView::Bytes(bytes) => if valid_utf8(bytes) {
            Ok(DocumentView { text: decode_utf8(bytes), path: Some(path), modified: false })
        } else {
            Err(CoreErrorView::DocumentEncoding { path })
        },
    }
}

#[verifier::ext_equal]
pub struct DocumentView {
    pub text: Seq<char>,
    pub path: Option<Seq<char>>,
    pub modified: bool,
}

/// A text as it is on disk.
#[derive(Debug)]
pub struct StoredText {
    rope: Rope,
}

impl View for StoredText {
    type V = Seq<char>;

    closed spec fn view(&self) -> Seq<char> {
        rope_text(self.rope)
    }
}

/// A document loaded or created in the editor.
#[derive(Debug)]
pub struct Document {
    /// What is on disk.
    pub stored: StoredText,
    /// Path on disk; `None` for a document that was never saved.
    pub path: Option<String>,
    /// The editor differs from what is on disk.
    pub modified: bool,
}

impl View for Document {
    type V = DocumentView;

    open spec fn view(&self) -> DocumentView {
        DocumentView {
            text: self.stored@,
            path: match self.path {
                Some(p) => Some(p@),
                None => None,
            },
            modified: self.modified,
        }
    }
}

/// The number of lines that a user sees: a final line feed does not open one more.
pub open spec fn user_lines(text: Seq<char>) -> nat {
    if text.len() > 0 && text.last() == '\n' {
        line_breaks(text)
    } else {
        line_breaks(text) + 1
    }
}

/// What is shown for the file name of a document.
pub open spec fn shown_name(name: Option<Seq<char>>) -> Seq<char> {
    match name {
        Some(name) => name,
        None => "[Unnamed Document]"@,
    }
}

/// What can be shown as the name of a file: it depends on the file name that the platform finds in
/// the path.
pub open spec fn file_shows_as(path: Seq<char>, shown: Seq<char>) -> bool {
    exists|name: Option<Seq<char>>| #[trigger]
        has_file_name(path, name) && shown == shown_name(name)
}

/// What can be shown as the name of a document.
pub open spec fn shows_as(path: Option<Seq<char>>, shown: Seq<char>) -> bool {
    match path {
        Some(p) => file_shows_as(p, shown),
        None => shown == shown_name(None),
    }
}

/// What is shown for a file name.
pub fn shown_for(name: Option<String>) -> (r: String)
    ensures
        r@ == shown_name(opt_view(name)),
{
    match name {
        Some(name) => name,
        None => "[Unnamed Document]".to_owned(),
    }
}

impl Document {
    /// An empty document without a path.
    pub fn new() -> (r: Document)
        ensures
            r@ == (DocumentView { text: Seq::empty(), path: None, modified: false }),
    {
        Document { stored: StoredText { rope: rope_new() }, path: None, modified: false }
    }

    /// The document at `path`, given what came of reading the file.
    ///
    /// A file that could not be read gives `DocumentIo`. A file that is not valid UTF-8 gives
    /// `DocumentEncoding`.
    pub fn open(path: &str, content: FileContent) -> (r: Result<Document, CoreError>)
        ensures
            match opened(path@, content@) {
                Ok(d) => r matches Ok(doc) && doc@ == d,
                Err(e) => r matches Err(err) && err@ == e,
            },
    {
        match content {
            FileContent::Failed(source) => Err(
                CoreError::DocumentIo { path: path.to_owned(), source },
            ),
            FileContent::Bytes(bytes) => match rope_from_bytes(bytes.as_slice()) {
                Some(rope) => Ok(
                    Document {
                        stored: StoredText { rope },
                        path: Some(path.to_owned()),
                        modified: false,
                    },
                ),
                None => Err(CoreError::DocumentEncoding { path: path.to_owned() }),
            },
        }
    }

    /// Takes over that `content` was saved to the document's own path.
    ///
    /// Without a path nothing can have been written: the result is `DocumentNoPath`.
    pub fn save(&mut self, content: &str, outcome: WriteOutcome) -> (r: Result<(), CoreError>)
        ensures
            (final(self)@, error_of(r)) == saved_in_place(old(self)@, content@, outcome@),
    {
        match &self.path {
            Some(path) => {
                let path = path.clone();
                self.save_as(content, path.as_str(), outcome)
            },
            None => Err(CoreError::DocumentNoPath),
        }
    }

    /// Takes over that `content` was saved to `path`.
    ///
    /// On success the document has that content and that path and is not modified. When the file
    /// could not be created or not be written, what is on disk is as before, and so is the
    /// document.
    pub fn save_as(&mut self, content: &str, path: &str, outcome: WriteOutcome) -> (r: Result<
        (),
        CoreError,
    >)
        ensures
            (final(self)@, error_of(r)) == saved(old(self)@, content@, path@, outcome@),
    {
        match outcome {
            WriteOutcome::CreateFailed(source) | WriteOutcome::WriteFailed(source) => Err(
                CoreError::DocumentIo { path: path.to_owned(), source },
            ),
            WriteOutcome::Written => {
                self.stored = StoredText { rope: rope_from_str(content) };
                self.path = Some(path.to_owned());
                self.modified = false;
                Ok(())
            },
        }
    }

    /// The whole content.
    pub fn content(&self) -> (r: String)
        ensures
            r@ == self@.text,
    {
        rope_string(&self.stored.rope)
    }

    /// The number of lines. An empty document has one.
    pub fn line_count(&self) -> (r: usize)
        ensures
            r == user_lines(self@.text),
    {
        let n: usize = rope_len_lines(&self.stored.rope);
        let chars: usize = rope_len_chars(&self.stored.rope);
        if chars > 0 && rope_char(&self.stored.rope, chars - 1) == '\n' {
            n - 1
        } else {
            n
        }
    }

    /// The number of characters.
    pub fn char_count(&self) -> (r: usize)
        ensures
            r == self@.text.len(),
    {
        rope_len_chars(&self.stored.rope)
    }

    /// The number of bytes.
    pub fn byte_count(&self) -> (r: usize)
        ensures
            r == byte_len(self@.text),
    {
        rope_len_bytes(&self.stored.rope)
    }

    /// The name for the status bar: the file name, or a stand-in for a document without one.
    pub fn display_name(&self) -> (r: String)
        ensures
            shows_as(self@.path, r@),
    {
        match &self.path {
            Some(p) => {
                let name = file_name(p.as_str());
                let ghost found = opt_view(name);
                let r = shown_for(name);
                assert(has_file_name(p@, found));
                assert(file_shows_as(p@, r@));
                r
            },
            None => shown_for(None),
        }
    }

    /// The path on disk.
    pub fn file_path(&self) -> (r: Option<String>)
        ensures
            match r {
                Some(p) => self@.path == Some(p@),
                None => self@.path is None,
            },
    {
        match &self.path {
            Some(p) => Some(p.clone()),
            None => None,
        }
    }

    /// The editor differs from what is on disk.
    pub fn is_modified(&self) -> (r: bool)
        ensures
            r == self@.modified,
    {
        self.modified
    }

    /// Gives the document another path.
    pub fn set_path(&mut self, path: &str)
        ensures
            final(self)@ == (DocumentView { path: Some(path@), ..old(self)@ }),
    {
        self.path = Some(path.to_owned());
    }
}

/// How a document changes when `content` is saved to `path`, and the error that comes of it.
pub open spec fn saved(
    before: DocumentView,
    content: Seq<char>,
    path: Seq<char>,
    outcome: WriteOutcomeView,
) -> (DocumentView, Option<CoreErrorView>) {
    match outcome {
        WriteOutcomeView::CreateFailed(e) | WriteOutcomeView::WriteFailed(e) => (
            before,
            Some(CoreErrorView::DocumentIo { path, source: e }),
        ),
        WriteOutcomeView::Written => (
            DocumentView { text: content, path: Some(path), modified: false },
            None,
        ),
    }
}

/// How a document changes when `content` is saved to its own path.
pub open spec fn saved_in_place(
    before: DocumentView,
    content: Seq<char>,
    outcome: WriteOutcomeView,
) -> (DocumentView, Option<CoreErrorView>) {
    match before.path {
        None => (before, Some(CoreErrorView::DocumentNoPath)),
        Some(path) => saved(before, content, path, outcome),
    }
}

/// The error of a result.
pub open spec fn error_of(r: Result<(), CoreError>) -> Option<CoreErrorView> {
    match r {
        Ok(_) => None,
        Err(e) => Some(e@),
    }
}

impl Clone for Document {
    fn clone(&self) -> (r: Document)
        ensures
            r@ == self@,
    {
        Document {
            stored: StoredText { rope: rope_clone(&self.stored.rope) },
            path: self.file_path(),
            modified: self.modified,
        }
    }
}

impl Default for Document {
    fn default() -> (r: Document)
        ensures
            r@ == (DocumentView { text: Seq::empty(), path: None, modified: false }),
    {
        Document::new()
    }
}

// ---------------------------------------------------------------------------
// Laws
// ---------------------------------------------------------------------------

/// What was saved is read back: the bytes of a saved document open to that same document.
pub proof fn law_saved_content_is_read_back(
    before: DocumentView,
    content: Seq<char>,
    path: Seq<char>,
)
    ensures
        ({
            let after = saved(before, content, path, WriteOutcomeView::Written).0;
            opened(path, FileContentView::Bytes(encode_utf8(after.text))) == Ok::<_, CoreErrorView>(
                after,
            )
        }),
{
    encode_utf8_valid_utf8(content);
    encode_utf8_decode_utf8(content);
}

/// A document that could not be saved is as it was: it keeps its text, its path and its mark.
pub proof fn law_failed_save_changes_nothing(
    before: DocumentView,
    content: Seq<char>,
    path: Seq<char>,
    outcome: WriteOutcomeView,
)
    requires
        saved(before, content, path, outcome).1 is Some,
    ensures
        saved(before, content, path, outcome).0 == before,
{
}

/// A portable path is shown by its last component on every platform, and a document without a path
/// as unnamed.
pub proof fn law_portable_names_are_shown(path: Seq<char>, shown: Seq<char>)
    ensures
        is_portable(path) && shows_as(Some(path), shown) ==> shown == shown_name(
            path_file_name(path),
        ),
        shows_as(None, shown) ==> shown == "[Unnamed Document]"@,
{
}

/// Every document has at least one line.
pub proof fn law_a_document_has_a_line(text: Seq<char>)
    ensures
        user_lines(text) >= 1,
{
    reveal_with_fuel(line_breaks, 2);
    if text.len() > 0 && text.last() == '\n' {
        assert(is_line_break('\n'));
        if text.len() > 1 && text[text.len() - 2] == '\r' {
            assert(text.drop_last().last() == '\r');
            assert(is_line_break('\r'));
        }
    }
}

proof fn lemma_breaks_behind(front: Seq<char>, part: Seq<char>)
    requires
        forall|i: int| 0 <= i < part.len() ==> !is_line_break(#[trigger] part[i]),
    ensures
        line_breaks(front + part) == line_breaks(front),
    decreases part.len(),
{
    if part.len() == 0 {
        assert(front + part =~= front);
    } else {
        assert((front + part).drop_last() =~= front + part.drop_last());
        assert((front + part).last() == part[part.len() - 1]);
        lemma_breaks_behind(front, part.drop_last());
    }
}

/// Lines are counted as a reader counts them: each line feed begins a new line, and a carriage
/// return with its line feed begins one as well, not two.
pub proof fn law_line_feeds_begin_lines(front: Seq<char>, line: Seq<char>)
    requires
        front.len() > 0 ==> front.last() != '\r',
        forall|i: int| 0 <= i < line.len() ==> !is_line_break(#[trigger] line[i]),
    ensures
        line_breaks(front.push('\n') + line) == line_breaks(front) + 1,
        line_breaks(front.push('\r').push('\n') + line) == line_breaks(front) + 1,
        line_breaks(line) == 0,
{
    let lf = front.push('\n');
    let crlf = front.push('\r').push('\n');
    lemma_breaks_behind(lf, line);
    lemma_breaks_behind(crlf, line);
    lemma_breaks_behind(Seq::empty(), line);
    assert(Seq::<char>::empty() + line =~= line);
    assert(lf.drop_last() =~= front);
    assert(crlf.drop_last() =~= front.push('\r'));
    assert(front.push('\r').drop_last() =~= front);
    assert(crlf[crlf.len() - 2] == '\r');
    if front.len() > 0 {
        assert(lf[lf.len() - 2] == front.last());
    }
    assert(is_line_break('\n') && is_line_break('\r'));
    assert(line_breaks(front.push('\r')) == line_breaks(front) + 1);
    assert(line_breaks(crlf) == line_breaks(front.push('\r')));
}

/// A text without line breaks is one line, and a line feed at its end does not begin another one.
pub proof fn law_final_line_feeds_begin_no_line(front: Seq<char>, line: Seq<char>)
    requires
        line.len() > 0,
        forall|i: int| 0 <= i < line.len() ==> !is_line_break(#[trigger] line[i]),
        front.len() > 0 ==> front.last() == '\n',
    ensures
        user_lines(front + line) == line_breaks(front) + 1,
        user_lines((front + line).push('\n')) == user_lines(front + line),
{
    let text = front + line;
    lemma_breaks_behind(front, line);
    assert(text.last() == line[line.len() - 1]);
    assert(is_line_break('\n') && is_line_break('\r'));
    assert(text.last() != '\n' && text.last() != '\r');
    let more = text.push('\n');
    assert(more.drop_last() =~= text);
    assert(more[more.len() - 2] == text.last());
}

/// A file opens to what is in it, under the path that it was opened by, with nothing modified. One
/// that could not be read, or is not valid text, is an error that names its path.
pub proof fn law_files_open_to_what_is_in_them(path: Seq<char>, text: Seq<char>, why: Seq<char>)
    ensures
        opened(path, FileContentView::Bytes(encode_utf8(text))) == Ok::<_, CoreErrorView>(
            DocumentView { text, path: Some(path), modified: false },
        ),
        opened(path, FileContentView::Failed(why)) == Err::<DocumentView, _>(
            CoreErrorView::DocumentIo { path, source: why },
        ),
        forall|bytes: Seq<u8>|
            !valid_utf8(bytes) ==> #[trigger] opened(path, FileContentView::Bytes(bytes)) == Err::<
                DocumentView,
                _,
            >(CoreErrorView::DocumentEncoding { path }),
{
    encode_utf8_valid_utf8(text);
    encode_utf8_decode_utf8(text);
}

/// A save that succeeds leaves the document with the content that was saved and the path that it
/// was saved to, and nothing modified; saving in place keeps the path, and needs one.
pub proof fn law_saved_documents_hold_what_was_saved(
    before: DocumentView,
    content: Seq<char>,
    path: Seq<char>,
    outcome: WriteOutcomeView,
)
    ensures
        saved(before, content, path, WriteOutcomeView::Written) == (
            DocumentView { text: content, path: Some(path), modified: false },
            None::<CoreErrorView>,
        ),
        before.path is None ==> saved_in_place(before, content, outcome) == (
            before,
            Some(CoreErrorView::DocumentNoPath),
        ),
        before.path == Some(path) ==> saved_in_place(before, content, outcome) == saved(
            before,
            content,
            path,
            outcome,
        ),
        outcome matches WriteOutcomeView::CreateFailed(why) ==> saved(
            before,
            content,
            path,
            outcome,
        ) == (before, Some(CoreErrorView::DocumentIo { path, source: why })),
        outcome matches WriteOutcomeView::WriteFailed(why) ==> saved(
            before,
            content,
            path,
            outcome,
        ) == (before, Some(CoreErrorView::DocumentIo { path, source: why })),
{
}

} // verus!
