//! Loading PDF documents: the loader's configuration and the Markdown cleanup of page text.
use vstd::prelude::*;

verus! {

/// Unicode White_Space, the characters `char::is_whitespace` accepts.
pub open spec fn spec_is_whitespace(c: char) -> bool {
    let u = c as u32;
    ||| 9 <= u <= 13
    ||| u == 32
    ||| u == 0x85
    ||| u == 0xA0
    ||| u == 0x1680
    ||| 0x2000 <= u <= 0x200A
    ||| u == 0x2028
    ||| u == 0x2029
    ||| u == 0x202F
    ||| u == 0x205F
    ||| u == 0x3000
}

/// Executable form of [`spec_is_whitespace`].
pub fn is_whitespace(c: char) -> (r: bool)
    ensures
        r == spec_is_whitespace(c),
{
    let u = c as u32;
    (9 <= u && u <= 13) || u == 32 || u == 0x85 || u == 0xA0 || u == 0x1680 || (0x2000 <= u && u
        <= 0x200A) || u == 0x2028 || u == 0x2029 || u == 0x202F || u == 0x205F || u == 0x3000
}

/// `s` without leading whitespace.
pub open spec fn spec_trim_start(s: Seq<char>) -> Seq<char>
    decreases s.len(),
{
    if s.len() > 0 && spec_is_whitespace(s[0]) {
        spec_trim_start(s.drop_first())
    } else {
        s
    }
}

/// `s` without trailing whitespace.
pub open spec fn spec_trim_end(s: Seq<char>) -> Seq<char>
    decreases s.len(),
{
    if s.len() > 0 && spec_is_whitespace(s.last()) {
        spec_trim_end(s.drop_last())
    } else {
        s
    }
}

/// `s` without leading and trailing whitespace.
pub open spec fn spec_trim(s: Seq<char>) -> Seq<char> {
    spec_trim_end(spec_trim_start(s))
}

/// The state of splitting the first `k` characters of `s` into lines: the finished lines and the
/// line in progress.
pub open spec fn spec_lines_state(s: Seq<char>, k: int) -> (Seq<Seq<char>>, Seq<char>)
    decreases k,
{
    if k <= 0 || k > s.len() {
        (Seq::empty(), Seq::empty())
    } else {
        let prev = spec_lines_state(s, k - 1);
        if s[k - 1] == '\n' {
            (prev.0.push(prev.1), Seq::empty())
        } else {
            (prev.0, prev.1.push(s[k - 1]))
        }
    }
}

/// The lines of `s`: the pieces between newlines, where a final line ending is optional.
pub open spec fn spec_lines(s: Seq<char>) -> Seq<Seq<char>> {
    let st = spec_lines_state(s, s.len() as int);
    if st.1.len() > 0 {
        st.0.push(st.1)
    } else {
        st.0
    }
}

/// The elements of `list` with `sep` between consecutive ones.
pub open spec fn spec_join(list: Seq<Seq<char>>, sep: Seq<char>) -> Seq<char>
    decreases list.len(),
{
    if list.len() == 0 {
        Seq::empty()
    } else if list.len() == 1 {
        list[0]
    } else {
        spec_join(list.drop_last(), sep) + sep + list.last()
    }
}

/// The state of grouping the first `k` lines into paragraphs: the finished paragraphs (their
/// trimmed lines joined by spaces) and the trimmed lines of the paragraph in progress. A blank
/// line ends a paragraph.
pub open spec fn spec_paragraph_state(lines: Seq<Seq<char>>, k: int) -> (Seq<Seq<char>>, Seq<Seq<char>>)
    decreases k,
{
    if k <= 0 || k > lines.len() {
        (Seq::empty(), Seq::empty())
    } else {
        let prev = spec_paragraph_state(lines, k - 1);
        let t = spec_trim(lines[k - 1]);
        if t.len() == 0 {
            if prev.1.len() > 0 {
                (prev.0.push(spec_join(prev.1, seq![' '])), Seq::empty())
            } else {
                prev
            }
        } else {
            (prev.0, prev.1.push(t))
        }
    }
}

/// The paragraphs of a text: groups of consecutive non-blank lines, each line trimmed and the
/// lines of a group joined by single spaces.
pub open spec fn spec_paragraphs(text: Seq<char>) -> Seq<Seq<char>> {
    let lines = spec_lines(text);
    let st = spec_paragraph_state(lines, lines.len() as int);
    if st.1.len() > 0 {
        st.0.push(spec_join(st.1, seq![' ']))
    } else {
        st.0
    }
}

/// The Markdown rendering of extracted PDF text: its paragraphs separated by blank lines.
pub open spec fn spec_format_as_markdown(text: Seq<char>) -> Seq<char> {
    spec_join(spec_paragraphs(text), seq!['\n', '\n'])
}

proof fn lemma_trim_start_skip(s: Seq<char>, i: int)
    requires
        0 <= i < s.len(),
        spec_is_whitespace(s[i]),
    ensures
        spec_trim_start(s.subrange(i, s.len() as int)) == spec_trim_start(
            s.subrange(i + 1, s.len() as int),
        ),
{
    assert(s.subrange(i, s.len() as int).drop_first() =~= s.subrange(i + 1, s.len() as int));
}

proof fn lemma_trim_end_skip(s: Seq<char>, j: int)
    requires
        0 < j <= s.len(),
        spec_is_whitespace(s[j - 1]),
    ensures
        spec_trim_end(s.subrange(0, j)) == spec_trim_end(s.subrange(0, j - 1)),
{
    assert(s.subrange(0, j).drop_last() =~= s.subrange(0, j - 1));
}

/// `s` without leading and trailing whitespace.
pub fn trim(s: &[char]) -> (r: Vec<char>)
    ensures
        r@ == spec_trim(s@),
{
    let n = s.len();
    let mut i: usize = 0;
    proof {
        assert(s@.subrange(0, n as int) =~= s@);
    }
    while i < n && is_whitespace(s[i])
        invariant
            i <= n == s@.len(),
            spec_trim_start(s@) == spec_trim_start(s@.subrange(i as int, n as int)),
        decreases n - i,
    {
        proof {
            lemma_trim_start_skip(s@, i as int);
        }
        i = i + 1;
    }
    let ghost rest = s@.subrange(i as int, n as int);
    assert(spec_trim_start(s@) == rest) by {
        if rest.len() > 0 {
            assert(rest[0] == s@[i as int]);
        }
    }
    let mut j: usize = n;
    proof {
        assert(rest.subrange(0, rest.len() as int) =~= rest);
    }
    while j > i && is_whitespace(s[j - 1])
        invariant
            i <= j <= n == s@.len(),
            rest == s@.subrange(i as int, n as int),
            spec_trim_end(rest) == spec_trim_end(rest.subrange(0, j - i)),
        decreases j,
    {
        proof {
            assert(rest[j - i - 1] == s@[j - 1]);
            lemma_trim_end_skip(rest, j - i);
        }
        j = j - 1;
    }
    let ghost kept = rest.subrange(0, j - i);
    assert(spec_trim_end(rest) == kept) by {
        if kept.len() > 0 {
            assert(kept.last() == s@[j - 1]);
        }
    }
    let mut out: Vec<char> = Vec::new();
    let mut k = i;
    while k < j
        invariant
            i <= k <= j <= n == s@.len(),
            out@ == s@.subrange(i as int, k as int),
        decreases j - k,
    {
        out.push(s[k]);
        proof {
            assert(s@.subrange(i as int, k + 1) =~= s@.subrange(i as int, k as int).push(s@[k as int]));
        }
        k = k + 1;
    }
    proof {
        assert(kept =~= s@.subrange(i as int, j as int));
    }
    out
}

/// The lines of `s` (see [`spec_lines`]).
pub fn lines(s: &[char]) -> (r: Vec<Vec<char>>)
    ensures
        r@.map_values(|l: Vec<char>| l@) == spec_lines(s@),
{
    let mut done: Vec<Vec<char>> = Vec::new();
    let mut cur: Vec<char> = Vec::new();
    let mut k: usize = 0;
    while k < s.len()
        invariant
            k <= s@.len(),
            (done@.map_values(|l: Vec<char>| l@), cur@) == spec_lines_state(s@, k as int),
        decreases s@.len() - k,
    {
        let ghost before = done@.map_values(|l: Vec<char>| l@);
        if s[k] == '\n' {
            let finished = cur;
            cur = Vec::new();
            done.push(finished);
            proof {
                assert(done@.map_values(|l: Vec<char>| l@) =~= before.push(finished@));
            }
        } else {
            cur.push(s[k]);
        }
        k = k + 1;
    }
    if cur.len() > 0 {
        let ghost before = done@.map_values(|l: Vec<char>| l@);
        let last = cur;
        done.push(last);
        proof {
            assert(done@.map_values(|l: Vec<char>| l@) =~= before.push(last@));
        }
    }
    done
}

/// Appends `sep` and then `item` to `out`, or only `item` when `first`.
pub(crate) fn push_joined(out: &mut Vec<char>, first: bool, sep: &[char], item: &[char])
    ensures
        final(out)@ == if first { old(out)@ + item@ } else { old(out)@ + sep@ + item@ },
{
    if !first {
        let mut i: usize = 0;
        let ghost start = out@;
        while i < sep.len()
            invariant
                i <= sep@.len(),
                out@ == start + sep@.subrange(0, i as int),
            decreases sep@.len() - i,
        {
            out.push(sep[i]);
            proof {
                assert(sep@.subrange(0, i + 1) =~= sep@.subrange(0, i as int).push(sep@[i as int]));
            }
            i = i + 1;
        }
        proof {
            assert(sep@.subrange(0, sep@.len() as int) =~= sep@);
        }
    }
    let ghost start2 = out@;
    let mut j: usize = 0;
    while j < item.len()
        invariant
            j <= item@.len(),
            out@ == start2 + item@.subrange(0, j as int),
        decreases item@.len() - j,
    {
        out.push(item[j]);
        proof {
            assert(item@.subrange(0, j + 1) =~= item@.subrange(0, j as int).push(item@[j as int]));
        }
        j = j + 1;
    }
    proof {
        assert(item@.subrange(0, item@.len() as int) =~= item@);
    }
}

/// The elements of `list` with `sep` between consecutive ones.
pub fn join(list: &Vec<Vec<char>>, sep: &[char]) -> (r: Vec<char>)
    ensures
        r@ == spec_join(list@.map_values(|l: Vec<char>| l@), sep@),
{
    let ghost views = list@.map_values(|l: Vec<char>| l@);
    let mut out: Vec<char> = Vec::new();
    let mut i: usize = 0;
    while i < list.len()
        invariant
            i <= list@.len(),
            views == list@.map_values(|l: Vec<char>| l@),
            out@ == spec_join(views.subrange(0, i as int), sep@),
        decreases list@.len() - i,
    {
        push_joined(&mut out, i == 0, sep, list[i].as_slice());
        proof {
            let next = views.subrange(0, i + 1);
            assert(next.drop_last() =~= views.subrange(0, i as int));
            if i == 0 {
                assert(spec_join(views.subrange(0, 0), sep@) =~= Seq::<char>::empty());
                assert(out@ =~= next[0]);
            }
        }
        i = i + 1;
    }
    proof {
        assert(views.subrange(0, list@.len() as int) =~= views);
    }
    out
}

/// Renders text extracted from a PDF page as Markdown: each line is trimmed, consecutive
/// non-blank lines form a paragraph joined by spaces, and paragraphs are separated by one blank
/// line.
pub fn format_as_markdown_text(text: &str) -> (r: String)
    ensures
        r@ == spec_format_as_markdown(text@),
{
    let chars = crate::text::chars_of(text);
    let ls = lines(chars.as_slice());
    let ghost lv = ls@.map_values(|l: Vec<char>| l@);
    let mut done: Vec<Vec<char>> = Vec::new();
    let mut current: Vec<Vec<char>> = Vec::new();
    let mut k: usize = 0;
    while k < ls.len()
        invariant
            k <= ls@.len(),
            lv == ls@.map_values(|l: Vec<char>| l@),
            lv == spec_lines(text@),
            (
                done@.map_values(|l: Vec<char>| l@),
                current@.map_values(|l: Vec<char>| l@),
            ) == spec_paragraph_state(lv, k as int),
        decreases ls@.len() - k,
    {
        let t = trim(ls[k].as_slice());
        let ghost d0 = done@.map_values(|l: Vec<char>| l@);
        let ghost c0 = current@.map_values(|l: Vec<char>| l@);
        if t.len() == 0 {
            if current.len() > 0 {
                let space = vec![' '];
                let para = join(&current, space.as_slice());
                proof {
                    assert(space@ =~= seq![' ']);
                }
                done.push(para);
                current = Vec::new();
                proof {
                    assert(done@.map_values(|l: Vec<char>| l@) =~= d0.push(para@));
                    assert(current@.map_values(|l: Vec<char>| l@) =~= Seq::<Seq<char>>::empty());
                }
            }
        } else {
            current.push(t);
            proof {
                assert(current@.map_values(|l: Vec<char>| l@) =~= c0.push(t@));
            }
        }
        k = k + 1;
    }
    if current.len() > 0 {
        let ghost d0 = done@.map_values(|l: Vec<char>| l@);
        let space = vec![' '];
        proof {
            assert(space@ =~= seq![' ']);
        }
        let para = join(&current, space.as_slice());
        done.push(para);
        proof {
            assert(done@.map_values(|l: Vec<char>| l@) =~= d0.push(para@));
        }
    }
    let sep = vec!['\n', '\n'];
    proof {
        assert(sep@ =~= seq!['\n', '\n']);
    }
    let out = join(&done, sep.as_slice());
    crate::text::string_from_chars(out.as_slice())
}

} // verus!

verus! {

/// Errors of the PDF loader.
#[derive(Debug, PartialEq, Eq, Structural, Clone, Copy)]
pub enum PdfError {
    /// The builder was finished without a path.
    MissingPath,
    /// The document has no pages.
    NoPages,
    /// The document is encrypted.
    Encrypted,
    /// The bytes are not a PDF document that can be read.
    Unreadable,
    /// The text of the page with this number could not be extracted.
    PageText(u32),
    /// The document has more pages than page numbers can count.
    TooManyPages,
}

/// Declares lopdf's document type.
#[verifier::external_type_specification]
#[verifier::external_body]
pub struct ExPdfDocument(lopdf::Document);

/// The pages of a loaded document, in page order: for each, its extracted text
/// (`Document::extract_text` on that page alone), or `None` when extraction fails.
pub uninterp spec fn pdf_page_texts(doc: lopdf::Document) -> Seq<Option<Seq<char>>>;

/// What loading `bytes` as a PDF document gives (`Document::load_mem`): the pages of the
/// document (see [`pdf_page_texts`]), or why it could not be loaded. It depends on the bytes
/// alone.
pub uninterp spec fn pdf_load_outcome(bytes: Seq<u8>) -> Result<Seq<Option<Seq<char>>>, PdfError>;

/// Loads a PDF document from its bytes (`Document::load_mem`): `Encrypted` when lopdf's error
/// says the document is encrypted, `Unreadable` for any other error.
#[verifier::external_body]
fn pdf_load(bytes: &[u8]) -> (r: Result<lopdf::Document, PdfError>)
    ensures
        match r {
            Ok(doc) => pdf_load_outcome(bytes@) == Ok::<Seq<Option<Seq<char>>>, PdfError>(pdf_page_texts(doc)),
            Err(e) => pdf_load_outcome(bytes@) == Err::<Seq<Option<Seq<char>>>, PdfError>(e)
                && (e is Encrypted || e is Unreadable),
        },
{
    match lopdf::Document::load_mem(bytes) {
        Ok(doc) => Ok(doc),
        Err(e) if e.to_string().to_lowercase().contains("encrypted") => Err(PdfError::Encrypted),
        Err(_) => Err(PdfError::Unreadable),
    }
}

/// The number of pages of a document (`Document::get_pages`, which numbers the pages from 1 in
/// page order).
#[verifier::external_body]
fn pdf_page_count(doc: &lopdf::Document) -> (r: usize)
    ensures
        r == pdf_page_texts(*doc).len(),
{
    doc.get_pages().len()
}

/// The text of page `page` of a document (`Document::extract_text` with that page alone);
/// `None` when extraction fails.
#[verifier::external_body]
fn pdf_page_text(doc: &lopdf::Document, page: u32) -> (r: Option<String>)
    requires
        1 <= page <= pdf_page_texts(*doc).len(),
    ensures
        match r {
            Some(t) => pdf_page_texts(*doc)[page - 1] == Some(t@),
            None => pdf_page_texts(*doc)[page - 1] is None,
        },
{
    doc.extract_text(&[page]).ok()
}

/// A loader for PDF documents that extracts the text of each page and, unless disabled, renders
/// it as Markdown.
pub struct PdfLoader {
    pub(crate) path: String,
    pub(crate) format_as_markdown: bool,
}

/// Builder for [`PdfLoader`].
pub struct PdfLoaderBuilder {
    pub path: Option<String>,
    pub format_as_markdown: Option<bool>,
}

/// The text and metadata of one page of a PDF document.
#[derive(Debug)]
pub struct PdfPage {
    /// The path of the document.
    pub path: String,
    /// The page text, rendered as Markdown when the loader does so.
    pub chunk: String,
    /// The size of the chunk in bytes.
    pub original_size: usize,
    /// The page number (as numbered in the document).
    pub page_number: u32,
    /// The number of pages of the document.
    pub total_pages: usize,
}

impl PdfLoaderBuilder {
    /// Sets the path of the document.
    pub fn path(self, path: &str) -> (r: PdfLoaderBuilder)
        ensures
            r.path matches Some(p) && p@ == path@,
            r.format_as_markdown == self.format_as_markdown,
    {
        PdfLoaderBuilder { path: Some(path.to_owned()), format_as_markdown: self.format_as_markdown }
    }

    /// Sets whether page text is rendered as Markdown.
    pub fn format_as_markdown(self, enabled: bool) -> (r: PdfLoaderBuilder)
        ensures
            r.path == self.path,
            r.format_as_markdown == Some(enabled),
    {
        PdfLoaderBuilder { path: self.path, format_as_markdown: Some(enabled) }
    }

    /// Builds the loader; the path is required and Markdown rendering defaults to enabled.
    pub fn build(self) -> (r: Result<PdfLoader, PdfError>)
        ensures
            match self.path {
                Some(p) => r matches Ok(l) && l.spec_path() == p@ && l.spec_format_as_markdown() == match self.format_as_markdown {
                    Some(b) => b,
                    None => true,
                },
                None => r == Err::<PdfLoader, PdfError>(PdfError::MissingPath),
            },
    {
        match self.path {
            Some(path) => {
                let format_as_markdown = match self.format_as_markdown {
                    Some(b) => b,
                    None => true,
                };
                Ok(PdfLoader { path, format_as_markdown })
            },
            None => Err(PdfError::MissingPath),
        }
    }
}

impl PdfLoader {
    /// The path of the document.
    pub closed spec fn spec_path(&self) -> Seq<char> {
        self.path@
    }

    /// Whether page text is rendered as Markdown.
    pub closed spec fn spec_format_as_markdown(&self) -> bool {
        self.format_as_markdown
    }

    /// A loader for the document at `path`, with Markdown rendering enabled.
    pub fn from_path(path: &str) -> (r: PdfLoader)
        ensures
            r.spec_path() == path@,
            r.spec_format_as_markdown(),
    {
        PdfLoader { path: path.to_owned(), format_as_markdown: true }
    }

    /// A builder with nothing set.
    pub fn builder() -> (r: PdfLoaderBuilder)
        ensures
            r.path is None,
            r.format_as_markdown is None,
    {
        PdfLoaderBuilder { path: None, format_as_markdown: None }
    }

    /// The loader with Markdown rendering enabled or disabled.
    pub fn with_markdown_formatting(self, enabled: bool) -> (r: PdfLoader)
        ensures
            r.spec_path() == self.spec_path(),
            r.spec_format_as_markdown() == enabled,
    {
        PdfLoader { path: self.path, format_as_markdown: enabled }
    }

    /// The path of the document, as text (`std::path::Path::new` turns it into a path).
    pub fn path(&self) -> (r: &str)
        ensures
            r@ == self.spec_path(),
    {
        self.path.as_str()
    }

    /// Whether page text is rendered as Markdown.
    pub fn is_markdown_formatting_enabled(&self) -> (r: bool)
        ensures
            r == self.spec_format_as_markdown(),
    {
        self.format_as_markdown
    }

    /// Renders extracted page text as Markdown (see [`format_as_markdown_text`]).
    pub fn format_as_markdown_text(&self, text: &str) -> (r: String)
        ensures
            r@ == spec_format_as_markdown(text@),
    {
        format_as_markdown_text(text)
    }

    /// The text of a page as the loader emits it: rendered as Markdown when enabled, unchanged
    /// otherwise.
    pub open spec fn spec_page_text(&self, text: Seq<char>) -> Seq<char> {
        if self.spec_format_as_markdown() {
            spec_format_as_markdown(text)
        } else {
            text
        }
    }

    /// The node for one page of the document, given the page's extracted text.
    pub fn page_node(&self, page_number: u32, total_pages: usize, text: String) -> (r: PdfPage)
        ensures
            r.path@ == self.spec_path(),
            r.chunk@ == self.spec_page_text(text@),
            r.original_size == vstd::utf8::encode_utf8(r.chunk@).len(),
            r.page_number == page_number,
            r.total_pages == total_pages,
    {
        let chunk = if self.format_as_markdown {
            format_as_markdown_text(text.as_str())
        } else {
            text
        };
        let original_size = chunk.as_str().as_bytes().len();
        PdfPage { path: self.path.clone(), chunk, original_size, page_number, total_pages }
    }

    /// The nodes of a document from the extracted text of its pages, in page order. Fails when
    /// the document has no pages.
    pub fn page_nodes(&self, pages: Vec<(u32, String)>) -> (r: Result<Vec<PdfPage>, PdfError>)
        ensures
            pages@.len() == 0 <==> r == Err::<Vec<PdfPage>, PdfError>(PdfError::NoPages),
            r is Err ==> r == Err::<Vec<PdfPage>, PdfError>(PdfError::NoPages),
            r matches Ok(v) ==> {
                &&& v@.len() == pages@.len()
                &&& forall|i: int|
                    0 <= i < v@.len() ==> {
                        &&& (#[trigger] v@[i]).path@ == self.spec_path()
                        &&& v@[i].chunk@ == self.spec_page_text(pages@[i].1@)
                        &&& v@[i].original_size == vstd::utf8::encode_utf8(v@[i].chunk@).len()
                        &&& v@[i].page_number == pages@[i].0
                        &&& v@[i].total_pages == pages@.len()
                    }
            },
    {
        let total = pages.len();
        if total == 0 {
            return Err(PdfError::NoPages);
        }
        let ghost input = pages@;
        let mut pages = pages;
        let mut rev: Vec<PdfPage> = Vec::new();
        while pages.len() > 0
            invariant
                pages@.len() + rev@.len() == total == input.len(),
                forall|j: int| 0 <= j < pages@.len() ==> #[trigger] pages@[j] == input[j],
                forall|j: int|
                    0 <= j < rev@.len() ==> {
                        let k = total - 1 - j;
                        &&& (#[trigger] rev@[j]).path@ == self.spec_path()
                        &&& rev@[j].chunk@ == self.spec_page_text(input[k].1@)
                        &&& rev@[j].original_size == vstd::utf8::encode_utf8(rev@[j].chunk@).len()
                        &&& rev@[j].page_number == input[k].0
                        &&& rev@[j].total_pages == total
                    },
            decreases pages@.len(),
        {
            let (number, text) = pages.pop().unwrap();
            rev.push(self.page_node(number, total, text));
        }
        let mut out: Vec<PdfPage> = Vec::new();
        while rev.len() > 0
            invariant
                out@.len() + rev@.len() == total == input.len(),
                forall|j: int|
                    0 <= j < rev@.len() ==> {
                        let k = total - 1 - j;
                        &&& (#[trigger] rev@[j]).path@ == self.spec_path()
                        &&& rev@[j].chunk@ == self.spec_page_text(input[k].1@)
                        &&& rev@[j].original_size == vstd::utf8::encode_utf8(rev@[j].chunk@).len()
                        &&& rev@[j].page_number == input[k].0
                        &&& rev@[j].total_pages == total
                    },
                forall|j: int|
                    0 <= j < out@.len() ==> {
                        &&& (#[trigger] out@[j]).path@ == self.spec_path()
                        &&& out@[j].chunk@ == self.spec_page_text(input[j].1@)
                        &&& out@[j].original_size == vstd::utf8::encode_utf8(out@[j].chunk@).len()
                        &&& out@[j].page_number == input[j].0
                        &&& out@[j].total_pages == total
                    },
            decreases rev@.len(),
        {
            let p = rev.pop().unwrap();
            out.push(p);
        }
        Ok(out)
    }

    /// The pages of the PDF document whose bytes are `bytes` (see [`Self::spec_pdf_pages`]).
    pub fn extract_pdf_pages(&self, bytes: &[u8]) -> (r: Result<Vec<PdfPage>, PdfError>)
        ensures
            self.spec_pdf_pages(bytes@, r),
    {
        let doc = match pdf_load(bytes) {
            Ok(d) => d,
            Err(e) => return Err(e),
        };
        let count = pdf_page_count(&doc);
        if count == 0 {
            return Err(PdfError::NoPages);
        }
        if count > u32::MAX as usize {
            return Err(PdfError::TooManyPages);
        }
        let ghost texts = pdf_page_texts(doc);
        let mut pages: Vec<(u32, String)> = Vec::new();
        let mut i: usize = 0;
        while i < count
            invariant
                pdf_load_outcome(bytes@) == Ok::<Seq<Option<Seq<char>>>, PdfError>(texts),
                count == texts.len(),
                count <= u32::MAX,
                texts == pdf_page_texts(doc),
                i <= count,
                pages@.len() == i,
                forall|j: int| 0 <= j < i ==> texts[j] is Some,
                forall|j: int|
                    0 <= j < i ==> (#[trigger] pages@[j]).0 == j + 1 && texts[j] == Some(pages@[j].1@),
            decreases count - i,
        {
            let page = (i + 1) as u32;
            match pdf_page_text(&doc, page) {
                Some(t) => pages.push((page, t)),
                None => {
                    proof {
                        assert(texts[i as int] is None);
                    }
                    return Err(PdfError::PageText(page));
                },
            }
            i = i + 1;
        }
        let ghost input = pages@;
        let r = self.page_nodes(pages);
        proof {
            assert(!(exists|k: int| 0 <= k < texts.len() && #[trigger] texts[k] is None));
            if let Ok(v) = &r {
                assert forall|k: int| 0 <= k < v@.len() implies (#[trigger] v@[k]).chunk@
                    == self.spec_page_text(texts[k]->0) && v@[k].page_number == k + 1
                    && v@[k].original_size == vstd::utf8::encode_utf8(v@[k].chunk@).len() by {
                    assert(texts[k] == Some(input[k].1@));
                }
            }
        }
        r
    }

    /// `r` is what the loader gives for the PDF document whose bytes are `bytes` (see
    /// [`pdf_load_outcome`]): the loading error when it cannot be loaded; `NoPages` when it has
    /// no pages; `TooManyPages` beyond the page numbers of a `u32`; `PageText` with the number of
    /// the first page whose text cannot be extracted; otherwise one node per page, in page order,
    /// numbered from 1, with the document's path, the page's text as the loader emits it (see
    /// [`Self::spec_page_text`]) and the number of pages.
    pub open spec fn spec_pdf_pages(&self, bytes: Seq<u8>, r: Result<Vec<PdfPage>, PdfError>) -> bool {
        match pdf_load_outcome(bytes) {
            Err(e) => r == Err::<Vec<PdfPage>, PdfError>(e),
            Ok(texts) => if texts.len() == 0 {
                r == Err::<Vec<PdfPage>, PdfError>(PdfError::NoPages)
            } else if texts.len() > u32::MAX {
                r == Err::<Vec<PdfPage>, PdfError>(PdfError::TooManyPages)
            } else if exists|k: int| 0 <= k < texts.len() && #[trigger] texts[k] is None {
                r matches Err(PdfError::PageText(p)) && 1 <= p <= texts.len() && texts[p - 1] is None
                    && forall|j: int| 0 <= j < p - 1 ==> #[trigger] texts[j] is Some
            } else {
                r matches Ok(v) && v@.len() == texts.len() && forall|i: int|
                    0 <= i < v@.len() ==> {
                        &&& (#[trigger] v@[i]).path@ == self.spec_path()
                        &&& v@[i].chunk@ == self.spec_page_text(texts[i]->0)
                        &&& v@[i].original_size == vstd::utf8::encode_utf8(v@[i].chunk@).len()
                        &&& v@[i].page_number == i + 1
                        &&& v@[i].total_pages == texts.len()
                    }
            },
        }
    }

    /// The loader as text: `PdfLoader(<path>)`.
    pub fn to_display_string(&self) -> (r: String)
        ensures
            r@ == seq!['P', 'd', 'f', 'L', 'o', 'a', 'd', 'e', 'r', '('] + self.spec_path() + seq![')'],
    {
        let open = vec!['P', 'd', 'f', 'L', 'o', 'a', 'd', 'e', 'r', '('];
        let mut out = crate::text::string_from_chars(open.as_slice());
        out.append(self.path.as_str());
        out.append(")");
        proof {
            reveal_strlit(")");
            assert(open@ =~= seq!['P', 'd', 'f', 'L', 'o', 'a', 'd', 'e', 'r', '(']);
        }
        out
    }
}

} // verus!
