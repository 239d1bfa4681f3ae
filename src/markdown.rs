use crate::metadata::{text_view, FrontmatterError, PostMetadata};
use crate::slug::resolved_slug;
use crate::text::{chars_of, string_of};
use vstd::prelude::*;

verus! {

/// The HTML that pulldown-cmark renders from `markdown` with every extension on.
pub uninterp spec fn markdown_html(markdown: Seq<char>) -> Seq<char>;

/// Renders Markdown to HTML with every extension that pulldown-cmark offers
/// (tables, strikethrough, footnotes, task lists and the rest). The output is
/// not sanitised.
///
/// Relies on `pulldown_cmark::Parser::new_ext` under `Options::all()`, drained
/// by `pulldown_cmark::html::push_html` into an empty string: the output
/// depends on the input text alone.
#[verifier::external_body]
pub fn render_markdown(markdown: &str) -> (r: String)
    ensures
        r@ == markdown_html(markdown@),
{
    let mut html_output = String::new();
    let parser = pulldown_cmark::Parser::new_ext(markdown, pulldown_cmark::Options::all());
    pulldown_cmark::html::push_html(&mut html_output, parser);
    html_output
}

/// The marker `---` stands at position `i` of `s`.
pub open spec fn marker_at(s: Seq<char>, i: int) -> bool {
    &&& 0 <= i
    &&& i + 3 <= s.len()
    &&& s[i] == '-' && s[i + 1] == '-' && s[i + 2] == '-'
}

/// The document opens with a frontmatter marker.
pub open spec fn opens_with_marker(s: Seq<char>) -> bool {
    marker_at(s, 0)
}

/// The first position at or after `from` where the marker stands. The marker
/// counts wherever it stands, not only on a line of its own, so a block closes
/// at the first `---` after the opening one.
pub open spec fn next_marker(s: Seq<char>, from: int) -> Option<int>
    decreases s.len() - from,
{
    if from < 0 || from + 3 > s.len() {
        None
    } else if marker_at(s, from) {
        Some(from)
    } else {
        next_marker(s, from + 1)
    }
}

/// `s` without one leading line break (`\n` or `\r\n`), where it has one.
pub open spec fn strip_line_break(s: Seq<char>) -> Seq<char> {
    if s.len() >= 1 && s[0] == '\n' {
        s.subrange(1, s.len() as int)
    } else if s.len() >= 2 && s[0] == '\r' && s[1] == '\n' {
        s.subrange(2, s.len() as int)
    } else {
        s
    }
}

/// The body of a document whose frontmatter closes at `close`: what follows
/// the closing marker, without one leading line break.
pub open spec fn body_after(s: Seq<char>, close: int) -> Seq<char> {
    strip_line_break(s.subrange(close + 3, s.len() as int))
}

/// How a document splits: its body, or why its frontmatter cannot be read.
pub open spec fn split_document(s: Seq<char>) -> Result<Seq<char>, FrontmatterError> {
    if !opens_with_marker(s) {
        Ok(s)
    } else {
        match next_marker(s, 3) {
            None => Err(FrontmatterError::MissingClosingMarker),
            Some(close) => if crate::metadata::yaml_accepts(s.subrange(3, close)) {
                Ok(body_after(s, close))
            } else {
                Err(FrontmatterError::InvalidMetadata)
            },
        }
    }
}

/// `m` is the metadata that document `s` gives: the defaults where `s` has no
/// frontmatter, else what its block (between the two markers) reads as.
pub open spec fn metadata_of_document(s: Seq<char>, m: PostMetadata) -> bool {
    if !opens_with_marker(s) {
        m.is_default()
    } else {
        match next_marker(s, 3) {
            Some(close) => m.read_from(s.subrange(3, close)),
            None => false,
        }
    }
}

/// Splits a document into its metadata and its Markdown body.
///
/// A document that does not open with `---` is all body, with default
/// metadata. Otherwise the text up to the next `---` is the metadata block,
/// read as YAML, and the body is what follows that marker, without one leading
/// line break. Markers are found wherever they stand in the text, also inside
/// a line, so a `---` within the block ends it.
pub fn parse_frontmatter(content: &str) -> (r: Result<(PostMetadata, String), FrontmatterError>)
    ensures
        !opens_with_marker(content@) ==> (r matches Ok((m, body)) && m.is_default() && body@
            == content@),
        opens_with_marker(content@) && next_marker(content@, 3) is None ==> r == Err::<
            (PostMetadata, String),
            FrontmatterError,
        >(FrontmatterError::MissingClosingMarker),
        r is Ok <==> split_document(content@) is Ok,
        r matches Ok((m, body)) ==> body@ == split_document(content@)->Ok_0
            && metadata_of_document(content@, m),
        r matches Err(e) ==> split_document(content@) == Err::<Seq<char>, FrontmatterError>(e),
{
    let cs = chars_of(content);
    if !(cs.len() >= 3 && cs[0] == '-' && cs[1] == '-' && cs[2] == '-') {
        return Ok((PostMetadata::new(), content.to_owned()));
    }
    let mut k: usize = 3;
    while cs.len() - k >= 3 && !(cs[k] == '-' && cs[k + 1] == '-' && cs[k + 2] == '-')
        invariant
            cs@ == content@,
            3 <= k <= cs@.len(),
            next_marker(cs@, 3) == next_marker(cs@, k as int),
        decreases cs@.len() - k,
    {
        k = k + 1;
    }
    if cs.len() - k < 3 {
        return Err(FrontmatterError::MissingClosingMarker);
    }
    let block = string_of(&cs, 3, k);
    let metadata = match PostMetadata::from_yaml(block.as_str()) {
        Ok(m) => m,
        Err(e) => {
            return Err(e);
        },
    };
    let mut start: usize = k + 3;
    if start < cs.len() && cs[start] == '\n' {
        start = start + 1;
    } else if start < cs.len() && cs.len() - start >= 2 && cs[start] == '\r' && cs[start + 1] == '\n' {
        start = start + 2;
    }
    let body = string_of(&cs, start, cs.len());
    proof {
        assert(body_after(cs@, k as int) =~= cs@.subrange(start as int, cs@.len() as int));
    }
    Ok((metadata, body))
}

/// One Markdown source, loaded: its metadata, its Markdown body, the HTML
/// rendered from that body, and where it came from.
#[derive(Clone, Debug)]
pub struct Post {
    pub metadata: PostMetadata,
    /// The Markdown body, without the frontmatter.
    pub content: String,
    /// The HTML rendered from `content`; empty until rendered.
    pub html_content: String,
    /// The source's path, as the scan found it.
    pub file_path: String,
}

impl Post {
    /// The post's slug: the explicit one where it is non-empty, else the one
    /// derived from its file name.
    pub open spec fn slug_spec(self) -> Seq<char> {
        resolved_slug(text_view(self.metadata.slug), self.file_path@)
    }

    /// Returns the post's slug: the explicit one where it is non-empty, else the
    /// one derived from its file name.
    pub fn slug(&self) -> (r: String)
        ensures
            r@ == self.slug_spec(),
    {
        self.metadata.get_slug(self.file_path.as_str())
    }
}

/// Parses the text of the source at `file_path` into a post whose HTML is not
/// rendered yet.
pub fn parse_markdown_content(file_path: &str, text: &str) -> (r: Result<Post, FrontmatterError>)
    ensures
        r is Ok <==> split_document(text@) is Ok,
        r matches Err(e) ==> split_document(text@) == Err::<Seq<char>, FrontmatterError>(e),
        r matches Ok(p) ==> {
            &&& p.content@ == split_document(text@)->Ok_0
            &&& p.html_content@ == Seq::<char>::empty()
            &&& p.file_path@ == file_path@
            &&& metadata_of_document(text@, p.metadata)
        },
{
    let (metadata, content) = match parse_frontmatter(text) {
        Ok(pair) => pair,
        Err(e) => {
            return Err(e);
        },
    };
    Ok(Post { metadata, content, html_content: String::new(), file_path: file_path.to_owned() })
}

/// Loads the source at `file_path`: parses it and renders its body to HTML.
/// A source whose frontmatter cannot be read gives the reason and no post.
pub fn process_markdown_content(file_path: &str, text: &str) -> (r: Result<Post, FrontmatterError>)
    ensures
        r is Ok <==> split_document(text@) is Ok,
        r matches Err(e) ==> split_document(text@) == Err::<Seq<char>, FrontmatterError>(e),
        r matches Ok(p) ==> {
            &&& p.content@ == split_document(text@)->Ok_0
            &&& p.html_content@ == markdown_html(p.content@)
            &&& p.file_path@ == file_path@
            &&& metadata_of_document(text@, p.metadata)
        },
{
    let mut post = match parse_markdown_content(file_path, text) {
        Ok(p) => p,
        Err(e) => {
            return Err(e);
        },
    };
    post.html_content = render_markdown(post.content.as_str());
    Ok(post)
}

} // verus!
