//! Turning the HTML of scraped pages into Markdown.
use vstd::prelude::*;
use crate::supported_languages::strings_view;

verus! {

/// What htmd makes of `html` with a converter that drops the tags `skip_tags` together with
/// their content: the Markdown text, or `None` when the conversion fails.
pub uninterp spec fn markdown_of_html(skip_tags: Seq<Seq<char>>, html: Seq<char>) -> Option<Seq<char>>;

/// Converts `html` to Markdown with htmd, dropping the tags `skip_tags` with their content
/// (`HtmlToMarkdown::builder`, `HtmlToMarkdownBuilder::skip_tags`, `HtmlToMarkdownBuilder::build`,
/// `HtmlToMarkdown::convert`); `None` when the conversion fails. The result is named, not
/// stated: it is what htmd's rules for each element give. htmd panics on an empty list of tags.
#[verifier::external_body]
fn htmd_convert(skip_tags: &Vec<String>, html: &str) -> (r: Option<String>)
    requires
        skip_tags@.len() > 0,
    ensures
        match r {
            Some(m) => markdown_of_html(strings_view(skip_tags@), html@) == Some(m@),
            None => markdown_of_html(strings_view(skip_tags@), html@) is None,
        },
{
    let tags: Vec<&str> = skip_tags.iter().map(|t| t.as_str()).collect();
    htmd::HtmlToMarkdown::builder().skip_tags(tags).build().convert(html).ok()
}

/// Why a page could not be converted.
#[derive(Debug, PartialEq, Eq, Structural, Clone, Copy)]
pub enum HtmlConversionError {
    /// The converter failed on the page.
    ConversionFailed,
}

/// Turns the HTML of a node into Markdown.
#[derive(Debug)]
pub struct HtmlToMarkdownTransformer {
    skip_tags: Vec<String>,
    concurrency: Option<usize>,
}

impl HtmlToMarkdownTransformer {
    /// Some tags are dropped.
    #[verifier::type_invariant]
    spec fn skips_some_tags(self) -> bool {
        self.skip_tags@.len() > 0
    }

    /// The tags dropped with their content.
    pub closed spec fn spec_skip_tags(&self) -> Seq<Seq<char>> {
        strings_view(self.skip_tags@)
    }

    /// How many nodes are converted at once, if limited.
    pub closed spec fn spec_concurrency(&self) -> Option<usize> {
        self.concurrency
    }

    /// A transformer that drops scripts and styles with their content.
    pub fn new() -> (r: HtmlToMarkdownTransformer)
        ensures
            r.spec_skip_tags() == seq!["script"@, "style"@],
            r.spec_concurrency() is None,
    {
        let skip_tags = vec!["script".to_owned(), "style".to_owned()];
        proof {
            assert(strings_view(skip_tags@) =~= seq!["script"@, "style"@]);
        }
        HtmlToMarkdownTransformer { skip_tags, concurrency: None }
    }

    /// The transformer with the given tags, at least one, dropped with their content instead.
    pub fn with_skip_tags(self, tags: Vec<String>) -> (r: HtmlToMarkdownTransformer)
        requires
            tags@.len() > 0,
        ensures
            r.spec_skip_tags() == strings_view(tags@),
            r.spec_concurrency() == self.spec_concurrency(),
    {
        HtmlToMarkdownTransformer { skip_tags: tags, concurrency: self.concurrency }
    }

    /// The transformer with at most `concurrency` nodes converted at once.
    pub fn with_concurrency(self, concurrency: usize) -> (r: HtmlToMarkdownTransformer)
        ensures
            r.spec_skip_tags() == self.spec_skip_tags(),
            r.spec_concurrency() == Some(concurrency),
    {
        proof {
            use_type_invariant(&self);
        }
        HtmlToMarkdownTransformer { skip_tags: self.skip_tags, concurrency: Some(concurrency) }
    }

    /// How many nodes are converted at once, if limited.
    pub fn concurrency(&self) -> (r: Option<usize>)
        ensures
            r == self.spec_concurrency(),
    {
        self.concurrency
    }

    /// The Markdown of a node's HTML (see [`markdown_of_html`]); fails when the converter does.
    pub fn transform_chunk(&self, chunk: &str) -> (r: Result<String, HtmlConversionError>)
        ensures
            match markdown_of_html(self.spec_skip_tags(), chunk@) {
                Some(m) => r matches Ok(s) && s@ == m,
                None => r == Err::<String, HtmlConversionError>(HtmlConversionError::ConversionFailed),
            },
    {
        proof {
            use_type_invariant(self);
        }
        match htmd_convert(&self.skip_tags, chunk) {
            Some(m) => Ok(m),
            None => Err(HtmlConversionError::ConversionFailed),
        }
    }
}

impl Default for HtmlToMarkdownTransformer {
    /// A transformer that drops scripts and styles with their content.
    fn default() -> (r: HtmlToMarkdownTransformer)
        ensures
            r.spec_skip_tags() == seq!["script"@, "style"@],
            r.spec_concurrency() is None,
    {
        HtmlToMarkdownTransformer::new()
    }
}

} // verus!
