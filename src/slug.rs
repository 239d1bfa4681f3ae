use crate::filename::{has_date_shape, is_digit, opens_with_date_shape, stem_or_whole, stem_or_whole_of};
use crate::text::{chars_of, push_char};
use vstd::prelude::*;

verus! {

/// What `str::to_lowercase` makes of `s`.
pub uninterp spec fn lowercase(s: Seq<char>) -> Seq<char>;

/// What `char::is_alphanumeric` says of `c`.
pub uninterp spec fn alphanumeric(c: char) -> bool;

/// Relies on `str::to_lowercase`: the Unicode lower case of `s`, which depends
/// on its characters alone.
#[verifier::external_body]
fn to_lowercase(s: &str) -> (r: String)
    ensures
        r@ == lowercase(s@),
{
    s.to_lowercase()
}

/// Relies on `char::is_alphanumeric`: Unicode letters and numbers; among ASCII
/// characters exactly the letters and the digits.
#[verifier::external_body]
fn is_alphanumeric(c: char) -> (r: bool)
    ensures
        r == alphanumeric(c),
        (c as u32) < 128 ==> (r <==> (is_digit(c) || ('a' <= c && c <= 'z') || ('A' <= c
            && c <= 'Z'))),
{
    c.is_alphanumeric()
}

/// The stem opens with a full `YYYY-MM-DD-` prefix: digits at positions 0 to
/// 3, 5 and 6, 8 and 9, and dashes at positions 4, 7 and 10. A stem that only
/// starts with digits, or whose date part has another shape, has none.
pub open spec fn has_date_prefix(stem: Seq<char>) -> bool {
    &&& has_date_shape(stem)
    &&& stem.len() > 10
    &&& stem[10] == '-'
}

/// The stem with its eleven-character date prefix removed, where it has one.
pub open spec fn without_date_prefix(stem: Seq<char>) -> Seq<char> {
    if has_date_prefix(stem) {
        stem.subrange(11, stem.len() as int)
    } else {
        stem
    }
}

/// Spaces and underscores become dashes.
pub open spec fn dashed(c: char) -> char {
    if c == ' ' || c == '_' {
        '-'
    } else {
        c
    }
}

/// The characters that a slug keeps.
pub open spec fn slug_char(c: char) -> bool {
    alphanumeric(c) || c == '-'
}

/// `s` with spaces and underscores turned into dashes, keeping only
/// alphanumeric characters and dashes.
pub open spec fn clean_slug(s: Seq<char>) -> Seq<char>
    decreases s.len(),
{
    if s.len() == 0 {
        Seq::empty()
    } else {
        let c = dashed(s.last());
        if slug_char(c) {
            clean_slug(s.drop_last()).push(c)
        } else {
            clean_slug(s.drop_last())
        }
    }
}

/// The slug derived from a file name: its stem without a date prefix, in lower
/// case, cleaned.
pub open spec fn filename_slug(filename: Seq<char>) -> Seq<char> {
    clean_slug(lowercase(without_date_prefix(stem_or_whole(filename))))
}

/// The slug of a post: an explicit non-empty one verbatim, else the one derived
/// from its file name.
pub open spec fn resolved_slug(explicit: Option<Seq<char>>, filename: Seq<char>) -> Seq<char> {
    match explicit {
        Some(s) => if s.len() > 0 {
            s
        } else {
            filename_slug(filename)
        },
        None => filename_slug(filename),
    }
}

/// Cleans text that is already in lower case: spaces and underscores become
/// dashes, and only alphanumeric characters and dashes are kept.
pub fn clean_lowercase_slug(lowered: &str) -> (r: String)
    ensures
        r@ == clean_slug(lowered@),
{
    let cs = chars_of(lowered);
    let mut r = String::new();
    let mut i: usize = 0;
    while i < cs.len()
        invariant
            cs@ == lowered@,
            i <= cs@.len(),
            r@ == clean_slug(cs@.take(i as int)),
        decreases cs@.len() - i,
    {
        let c = if cs[i] == ' ' || cs[i] == '_' {
            '-'
        } else {
            cs[i]
        };
        assert(cs@.take(i + 1).drop_last() =~= cs@.take(i as int));
        if c == '-' || is_alphanumeric(c) {
            push_char(&mut r, c);
        }
        i = i + 1;
    }
    assert(cs@.take(cs@.len() as int) =~= cs@);
    r
}

fn without_date_prefix_of(stem: &str) -> (r: String)
    ensures
        r@ == without_date_prefix(stem@),
{
    let cs = chars_of(stem);
    if opens_with_date_shape(&cs) && cs.len() > 10 && cs[10] == '-' {
        crate::text::string_of(&cs, 11, cs.len())
    } else {
        stem.to_owned()
    }
}

/// The slug derived from a file name: the stem, without a `YYYY-MM-DD-`
/// prefix, lowercased, with spaces and underscores as dashes and any character
/// other than alphanumerics and dashes dropped.
pub fn slug_from_filename(filename: &str) -> (r: String)
    ensures
        r@ == filename_slug(filename@),
{
    let stem = stem_or_whole_of(filename);
    let bare = without_date_prefix_of(stem.as_str());
    let lowered = to_lowercase(bare.as_str());
    clean_lowercase_slug(lowered.as_str())
}

} // verus!
