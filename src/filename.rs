use crate::date::{parse_date_with, parsed_date, Date};
use crate::text::{chars_of, string_of};
use vstd::prelude::*;

verus! {

/// The stem that `std::path::Path::file_stem` gives for `path`: its last
/// component without the final extension.
pub uninterp spec fn path_file_stem(path: Seq<char>) -> Option<Seq<char>>;

/// The extension that `std::path::Path::extension` gives for `path`.
pub uninterp spec fn path_extension(path: Seq<char>) -> Option<Seq<char>>;

/// Relies on `std::path::Path::file_stem`: the stem of the last component of
/// `path`, a function of the text alone.
#[verifier::external_body]
fn file_stem(path: &str) -> (r: Option<String>)
    ensures
        match r {
            Some(s) => path_file_stem(path@) == Some(s@),
            None => path_file_stem(path@) is None,
        },
{
    std::path::Path::new(path).file_stem().and_then(|s| s.to_str()).map(|s| s.to_string())
}

/// Relies on `std::path::Path::extension`: the extension of the last component
/// of `path`, a function of the text alone.
#[verifier::external_body]
fn extension(path: &str) -> (r: Option<String>)
    ensures
        match r {
            Some(s) => path_extension(path@) == Some(s@),
            None => path_extension(path@) is None,
        },
{
    std::path::Path::new(path).extension().and_then(|s| s.to_str()).map(|s| s.to_string())
}

/// The stem of `path`, or the whole text where it has none.
pub open spec fn stem_or_whole(path: Seq<char>) -> Seq<char> {
    match path_file_stem(path) {
        Some(s) => s,
        None => path,
    }
}

/// Returns the stem of `path`, or the whole text where it has none.
pub fn stem_or_whole_of(path: &str) -> (r: String)
    ensures
        r@ == stem_or_whole(path@),
{
    match file_stem(path) {
        Some(s) => s,
        None => path.to_owned(),
    }
}

/// Whether `path` names a Markdown source: its extension is exactly `md`.
pub open spec fn is_markdown(path: Seq<char>) -> bool {
    path_extension(path) == Some("md"@)
}

/// Whether `path` names a Markdown source (extension `md`).
pub fn is_markdown_path(path: &str) -> (r: bool)
    ensures
        r == is_markdown(path@),
{
    proof {
        reveal_strlit("md");
    }
    match extension(path) {
        Some(e) => {
            let cs = chars_of(e.as_str());
            let r = cs.len() == 2 && cs[0] == 'm' && cs[1] == 'd';
            assert(r ==> cs@ =~= "md"@);
            r
        },
        None => false,
    }
}

/// An ASCII digit.
pub open spec fn is_digit(c: char) -> bool {
    '0' <= c && c <= '9'
}

/// `s` opens with the shape `DDDD-DD-DD`, digits and dashes.
pub open spec fn has_date_shape(s: Seq<char>) -> bool {
    &&& s.len() >= 10
    &&& is_digit(s[0]) && is_digit(s[1]) && is_digit(s[2]) && is_digit(s[3])
    &&& s[4] == '-'
    &&& is_digit(s[5]) && is_digit(s[6])
    &&& s[7] == '-'
    &&& is_digit(s[8]) && is_digit(s[9])
}

/// The date that a file's name carries: where its stem opens with
/// `YYYY-MM-DD`, those ten characters read as a date.
pub open spec fn filename_date(path: Seq<char>) -> Option<Date> {
    match path_file_stem(path) {
        Some(stem) => if has_date_shape(stem) {
            parsed_date(stem.subrange(0, 10), "%Y-%m-%d"@)
        } else {
            None
        },
        None => None,
    }
}

fn digit_at(cs: &Vec<char>, i: usize) -> (r: bool)
    requires
        i < cs@.len(),
    ensures
        r == is_digit(cs@[i as int]),
{
    '0' <= cs[i] && cs[i] <= '9'
}

/// Whether `cs` opens with the shape `DDDD-DD-DD`, digits and dashes.
pub(crate) fn opens_with_date_shape(cs: &Vec<char>) -> (r: bool)
    ensures
        r == has_date_shape(cs@),
{
    cs.len() >= 10 && digit_at(cs, 0) && digit_at(cs, 1) && digit_at(cs, 2) && digit_at(cs, 3)
        && cs[4] == '-' && digit_at(cs, 5) && digit_at(cs, 6) && cs[7] == '-' && digit_at(cs, 8)
        && digit_at(cs, 9)
}

/// Extracts the date from a file name of the form `YYYY-MM-DD-rest.md`;
/// nothing where the stem has another shape or the digits make no date.
pub fn extract_date_from_filename(path: &str) -> (r: Option<Date>)
    ensures
        r == filename_date(path@),
{
    match file_stem(path) {
        None => None,
        Some(stem) => {
            let cs = chars_of(stem.as_str());
            if opens_with_date_shape(&cs) {
                let prefix = string_of(&cs, 0, 10);
                parse_date_with(prefix.as_str(), "%Y-%m-%d")
            } else {
                None
            }
        },
    }
}

} // verus!
