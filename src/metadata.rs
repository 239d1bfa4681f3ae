use crate::date::{decode_date, decode_datetime, decoded_date, decoded_datetime, Date, DateTime};
use crate::slug::{resolved_slug, slug_from_filename};
use vstd::prelude::*;

verus! {

#[verifier::external_type_specification]
#[verifier::external_body]
pub struct ExYamlValue(serde_yaml::Value);

#[verifier::external_type_specification]
#[verifier::external_body]
pub struct ExYamlError(serde_yaml::Error);

/// `serde_yaml` accepts `text` as a YAML document.
pub uninterp spec fn yaml_accepts(text: Seq<char>) -> bool;

/// Relies on `serde_yaml::from_str` into a `serde_yaml::Value`: whether the
/// text is a well-formed YAML document depends on the text alone.
#[verifier::external_body]
fn parse_yaml(text: &str) -> (r: Result<serde_yaml::Value, serde_yaml::Error>)
    ensures
        r is Ok <==> yaml_accepts(text@),
{
    serde_yaml::from_str(text)
}

/// The text of the string entry under `key` of the YAML mapping in `text`:
/// none where `text` is not YAML, has no such entry, or the entry is not a
/// string.
pub uninterp spec fn yaml_str_at(text: Seq<char>, key: Seq<char>) -> Option<Seq<char>>;

/// The truth value of the boolean entry under `key` of the YAML mapping in
/// `text`; none where there is no such boolean entry.
pub uninterp spec fn yaml_bool_at(text: Seq<char>, key: Seq<char>) -> Option<bool>;

/// The items of the sequence entry under `key` of the YAML mapping in `text`,
/// each the text of a string item or none for an item of another kind; none
/// where there is no such sequence entry.
pub uninterp spec fn yaml_seq_at(text: Seq<char>, key: Seq<char>) -> Option<Seq<Option<Seq<char>>>>;

/// Relies on `serde_yaml::from_str` into a `serde_yaml::Value`, then
/// `Value::get` and `Value::as_str`: the string under `key`, a function of the
/// two texts alone.
#[verifier::external_body]
fn yaml_str_entry(text: &str, key: &str) -> (r: Option<String>)
    ensures
        text_view(r) == yaml_str_at(text@, key@),
{
    let v: serde_yaml::Value = serde_yaml::from_str(text).ok()?;
    v.get(key)?.as_str().map(|s| s.to_string())
}

/// Relies on `serde_yaml::from_str` into a `serde_yaml::Value`, then
/// `Value::get` and `Value::as_bool`: the boolean under `key`, a function of
/// the two texts alone.
#[verifier::external_body]
fn yaml_bool_entry(text: &str, key: &str) -> (r: Option<bool>)
    ensures
        r == yaml_bool_at(text@, key@),
{
    let v: serde_yaml::Value = serde_yaml::from_str(text).ok()?;
    v.get(key)?.as_bool()
}

/// Relies on `serde_yaml::from_str` into a `serde_yaml::Value`, then
/// `Value::get`, `Value::as_sequence` and `Value::as_str` on each item: the
/// items under `key`, a function of the two texts alone.
#[verifier::external_body]
fn yaml_seq_entry(text: &str, key: &str) -> (r: Option<Vec<Option<String>>>)
    ensures
        items_view(r) == yaml_seq_at(text@, key@),
{
    let v: serde_yaml::Value = serde_yaml::from_str(text).ok()?;
    let items = v.get(key)?.as_sequence()?;
    Some(items.iter().map(|i| i.as_str().map(|s| s.to_string())).collect())
}

/// The texts of an optional list of optional strings.
pub open spec fn items_view(o: Option<Vec<Option<String>>>) -> Option<Seq<Option<Seq<char>>>> {
    match o {
        Some(v) => Some(v@.map_values(|x: Option<String>| text_view(x))),
        None => None,
    }
}

/// The strings among `items`, in order.
pub open spec fn keep_strings(items: Seq<Option<Seq<char>>>) -> Seq<Seq<char>>
    decreases items.len(),
{
    if items.len() == 0 {
        Seq::empty()
    } else {
        match items.last() {
            Some(t) => keep_strings(items.drop_last()).push(t),
            None => keep_strings(items.drop_last()),
        }
    }
}

/// The string items of an optional list; none where the list is absent.
pub open spec fn string_items(o: Option<Seq<Option<Seq<char>>>>) -> Option<Seq<Seq<char>>> {
    match o {
        Some(items) => Some(keep_strings(items)),
        None => None,
    }
}

/// Why a document's frontmatter could not be read.
#[derive(Clone, Copy, Debug, PartialEq, Eq, Structural)]
pub enum FrontmatterError {
    /// The document opens with `---` but no second `---` follows.
    MissingClosingMarker,
    /// The block between the markers is not well-formed YAML.
    InvalidMetadata,
}

/// The text of an optional string.
pub open spec fn text_view(o: Option<String>) -> Option<Seq<char>> {
    match o {
        Some(s) => Some(s@),
        None => None,
    }
}

/// The texts of an optional list of strings.
pub open spec fn list_view(o: Option<Vec<String>>) -> Option<Seq<Seq<char>>> {
    match o {
        Some(v) => Some(v@.map_values(|s: String| s@)),
        None => None,
    }
}

/// The values of a frontmatter block as they stand, before any decoding: the
/// text of each string entry, the string items of each list entry, the
/// `draft` flag where it is a boolean.
#[derive(Clone, Debug, PartialEq)]
pub struct RawMetadata {
    pub title: Option<String>,
    pub date: Option<String>,
    pub author: Option<String>,
    pub tags: Option<Vec<String>>,
    pub categories: Option<Vec<String>>,
    pub summary: Option<String>,
    pub cover_image: Option<String>,
    pub slug: Option<String>,
    pub draft: Option<bool>,
    pub updated: Option<String>,
    pub layout: Option<String>,
}

/// The metadata of a post, as its frontmatter gives it.
#[derive(Clone, Debug, PartialEq)]
pub struct PostMetadata {
    pub title: String,
    pub date: Option<Date>,
    pub author: Option<String>,
    pub tags: Option<Vec<String>>,
    pub categories: Option<Vec<String>>,
    pub summary: Option<String>,
    pub cover_image: Option<String>,
    /// An explicit slug, which takes the place of the one derived from the
    /// file name.
    pub slug: Option<String>,
    pub draft: bool,
    pub updated: Option<DateTime>,
    /// A template hint for the presentation layer.
    pub layout: Option<String>,
}

/// The value of the `draft` flag where the frontmatter leaves it out.
pub fn default_false() -> (r: bool)
    ensures
        !r,
{
    false
}

impl PostMetadata {
    /// Every field at its default: empty title, no optional value, not a draft.
    pub open spec fn is_default(self) -> bool {
        &&& self.title@ == Seq::<char>::empty()
        &&& self.date is None
        &&& self.author is None
        &&& self.tags is None
        &&& self.categories is None
        &&& self.summary is None
        &&& self.cover_image is None
        &&& self.slug is None
        &&& !self.draft
        &&& self.updated is None
        &&& self.layout is None
    }

    /// `self` is what `raw` decodes to: a missing title reads `Untitled`, dates
    /// that do not read are absent, a missing or non-boolean `draft` is false,
    /// and the other values are taken as they stand.
    pub open spec fn decodes(self, raw: RawMetadata) -> bool {
        &&& self.title@ == match raw.title {
            Some(t) => t@,
            None => "Untitled"@,
        }
        &&& self.date == match raw.date {
            Some(d) => decoded_date(d@),
            None => None,
        }
        &&& text_view(self.author) == text_view(raw.author)
        &&& list_view(self.tags) == list_view(raw.tags)
        &&& list_view(self.categories) == list_view(raw.categories)
        &&& text_view(self.summary) == text_view(raw.summary)
        &&& text_view(self.cover_image) == text_view(raw.cover_image)
        &&& text_view(self.slug) == text_view(raw.slug)
        &&& self.draft == match raw.draft {
            Some(b) => b,
            None => false,
        }
        &&& self.updated == match raw.updated {
            Some(u) => decoded_datetime(u@),
            None => None,
        }
        &&& text_view(self.layout) == text_view(raw.layout)
    }

    /// The metadata of a document without frontmatter.
    pub fn new() -> (r: Self)
        ensures
            r.is_default(),
    {
        PostMetadata {
            title: String::new(),
            date: None,
            author: None,
            tags: None,
            categories: None,
            summary: None,
            cover_image: None,
            slug: None,
            draft: false,
            updated: None,
            layout: None,
        }
    }

    /// Decodes the values of a frontmatter block: defaults for what is missing,
    /// absent dates for values that do not read as dates.
    pub fn from_raw(raw: RawMetadata) -> (r: Self)
        ensures
            r.decodes(raw),
    {
        let title = match raw.title {
            Some(t) => t,
            None => "Untitled".to_owned(),
        };
        let date = match &raw.date {
            Some(d) => decode_date(d.as_str()),
            None => None,
        };
        let updated = match &raw.updated {
            Some(u) => decode_datetime(u.as_str()),
            None => None,
        };
        let draft = match raw.draft {
            Some(b) => b,
            None => default_false(),
        };
        PostMetadata {
            title,
            date,
            author: raw.author,
            tags: raw.tags,
            categories: raw.categories,
            summary: raw.summary,
            cover_image: raw.cover_image,
            slug: raw.slug,
            draft,
            updated,
            layout: raw.layout,
        }
    }

    /// `self` is the metadata that the YAML block `text` gives: its string
    /// entries as they stand (a missing title reads `Untitled`), the string
    /// items of its `tags` and `categories`, its `draft` flag where it is a
    /// boolean (else false), and its `date` and `updated` where they read as
    /// dates.
    pub open spec fn read_from(self, text: Seq<char>) -> bool {
        &&& self.title@ == match yaml_str_at(text, "title"@) {
            Some(t) => t,
            None => "Untitled"@,
        }
        &&& self.date == match yaml_str_at(text, "date"@) {
            Some(d) => decoded_date(d),
            None => None,
        }
        &&& text_view(self.author) == yaml_str_at(text, "author"@)
        &&& list_view(self.tags) == string_items(yaml_seq_at(text, "tags"@))
        &&& list_view(self.categories) == string_items(yaml_seq_at(text, "categories"@))
        &&& text_view(self.summary) == yaml_str_at(text, "summary"@)
        &&& text_view(self.cover_image) == yaml_str_at(text, "cover_image"@)
        &&& text_view(self.slug) == yaml_str_at(text, "slug"@)
        &&& self.draft == match yaml_bool_at(text, "draft"@) {
            Some(b) => b,
            None => false,
        }
        &&& self.updated == match yaml_str_at(text, "updated"@) {
            Some(u) => decoded_datetime(u),
            None => None,
        }
        &&& text_view(self.layout) == yaml_str_at(text, "layout"@)
    }

    /// Reads a frontmatter block as YAML. Unknown keys are ignored and missing
    /// ones take their defaults; only a block that is not well-formed YAML is
    /// an error.
    pub fn from_yaml(yaml: &str) -> (r: Result<Self, FrontmatterError>)
        ensures
            r is Ok <==> yaml_accepts(yaml@),
            r matches Err(e) ==> e == FrontmatterError::InvalidMetadata,
            r matches Ok(m) ==> m.read_from(yaml@),
    {
        if parse_yaml(yaml).is_err() {
            return Err(FrontmatterError::InvalidMetadata);
        }
        let raw = RawMetadata {
            title: yaml_str_entry(yaml, "title"),
            date: yaml_str_entry(yaml, "date"),
            author: yaml_str_entry(yaml, "author"),
            tags: string_items_of(yaml_seq_entry(yaml, "tags")),
            categories: string_items_of(yaml_seq_entry(yaml, "categories")),
            summary: yaml_str_entry(yaml, "summary"),
            cover_image: yaml_str_entry(yaml, "cover_image"),
            slug: yaml_str_entry(yaml, "slug"),
            draft: yaml_bool_entry(yaml, "draft"),
            updated: yaml_str_entry(yaml, "updated"),
            layout: yaml_str_entry(yaml, "layout"),
        };
        let m = Self::from_raw(raw);
        assert(m.read_from(yaml@));
        Ok(m)
    }

    /// Whether the post is unpublished.
    pub fn is_draft(&self) -> (r: bool)
        ensures
            r == self.draft,
    {
        self.draft
    }

    /// The post's slug: the explicit one where it is non-empty, else the one
    /// derived from `filename`.
    pub fn get_slug(&self, filename: &str) -> (r: String)
        ensures
            r@ == resolved_slug(text_view(self.slug), filename@),
    {
        match &self.slug {
            Some(s) => {
                if s.as_str().unicode_len() > 0 {
                    return s.clone();
                }
            },
            None => {},
        }
        slug_from_filename(filename)
    }
}

impl Default for PostMetadata {
    fn default() -> (r: Self)
        ensures
            r.is_default(),
    {
        Self::new()
    }
}

/// The string items of an optional list of optional strings, in order.
fn string_items_of(items: Option<Vec<Option<String>>>) -> (r: Option<Vec<String>>)
    ensures
        list_view(r) == string_items(items_view(items)),
{
    match items {
        None => None,
        Some(v) => {
            let ghost all = v@.map_values(|x: Option<String>| text_view(x));
            let mut out: Vec<String> = Vec::new();
            let mut i: usize = 0;
            while i < v.len()
                invariant
                    i <= v@.len(),
                    all == v@.map_values(|x: Option<String>| text_view(x)),
                    out@.map_values(|s: String| s@) == keep_strings(all.take(i as int)),
                decreases v@.len() - i,
            {
                let ghost before = out@;
                assert(all.take(i + 1).drop_last() =~= all.take(i as int));
                assert(all.take(i + 1).last() == text_view(v@[i as int]));
                match &v[i] {
                    Some(s) => {
                        let t: String = s.clone();
                        out.push(t);
                        assert(out@.map_values(|s: String| s@) =~= before.map_values(|s: String| s@).push(t@));
                    },
                    None => {},
                }
                i = i + 1;
            }
            assert(all.take(v@.len() as int) =~= all);
            Some(out)
        },
    }
}

} // verus!
