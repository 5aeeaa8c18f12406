//! Text helpers: paths written with `::`, suffixes, lower case.

use vstd::prelude::*;
use vstd::string::*;

verus! {

/// The separator of path segments, as characters.
pub open spec fn separator() -> Seq<char> {
    seq![':', ':']
}

/// Scans `s` from `from` to the right for separators that do not overlap,
/// and gives the position of the last one found; `found` is the last one
/// found before `from`.
pub open spec fn scan_separators(s: Seq<char>, from: int, found: Option<int>) -> Option<int>
    decreases s.len() - from,
{
    if from < 0 || from + 1 >= s.len() {
        found
    } else if s[from] == ':' && s[from + 1] == ':' {
        scan_separators(s, from + 2, Some(from))
    } else {
        scan_separators(s, from + 1, found)
    }
}

/// Where the last segment of a path is cut off: the position of the last
/// separator met when the path is split from left to right.
pub open spec fn last_separator(s: Seq<char>) -> Option<int> {
    scan_separators(s, 0, None)
}

/// The path without its last segment and the separator before it; empty for
/// a path of one segment.
pub open spec fn module_part(s: Seq<char>) -> Seq<char> {
    match last_separator(s) {
        Some(p) => s.subrange(0, p),
        None => Seq::empty(),
    }
}

/// The last segment of a path; the whole path where it has no separator.
pub open spec fn last_segment(s: Seq<char>) -> Seq<char> {
    match last_separator(s) {
        Some(p) => s.subrange(p + 2, s.len() as int),
        None => s,
    }
}

/// Two segments joined into one path.
pub open spec fn joined(module: Seq<char>, name: Seq<char>) -> Seq<char> {
    module + separator() + name
}

/// The characters of a string, in order.
pub fn chars_of(s: &str) -> (v: Vec<char>)
    ensures
        v@ == s@,
{
    let mut v: Vec<char> = Vec::new();
    for c in it: s.chars()
        invariant
            v@ == it.seq().take(it.index() as int),
            it.seq() == s@,
    {
        v.push(c);
    }
    v
}

/// Whether `s` ends with `suffix`.
pub fn ends_with(s: &String, suffix: &String) -> (r: bool)
    ensures
        r == suffix@.is_suffix_of(s@),
{
    let text = chars_of(s.as_str());
    let tail = chars_of(suffix.as_str());
    if tail.len() > text.len() {
        return false;
    }
    let shift: usize = text.len() - tail.len();
    let mut i: usize = 0;
    while i < tail.len()
        invariant
            i <= tail.len(),
            text@ == s@,
            tail@ == suffix@,
            shift + tail.len() == text.len(),
            forall|j: int| 0 <= j < i ==> text@[shift + j] == tail@[j],
        decreases tail.len() - i,
    {
        if text[shift + i] != tail[i] {
            return false;
        }
        i += 1;
    }
    true
}

/// Splits a path before its last segment: the module part and the last
/// segment.
pub fn split_path(path: &String) -> (r: (String, String))
    ensures
        r.0@ == module_part(path@),
        r.1@ == last_segment(path@),
{
    let text = chars_of(path.as_str());
    let mut found: Option<usize> = None;
    let mut i: usize = 0;
    while i < text.len() && i + 1 < text.len()
        invariant
            text@ == path@,
            i <= text.len(),
            found matches Some(p) ==> p + 2 <= i,
            scan_separators(
                path@,
                i as int,
                match found {
                    Some(p) => Some(p as int),
                    None => None,
                },
            ) == last_separator(path@),
        decreases text.len() - i,
    {
        if text[i] == ':' && text[i + 1] == ':' {
            found = Some(i);
            i += 2;
        } else {
            i += 1;
        }
    }
    match found {
        Some(p) => {
            let head = path.as_str().substring_char(0, p);
            let tail = path.as_str().substring_char(p + 2, text.len());
            (head.to_owned(), tail.to_owned())
        },
        None => (String::new(), path.clone()),
    }
}

/// A module path and a name joined with the separator.
pub fn join_path(module: &String, name: &String) -> (r: String)
    ensures
        r@ == joined(module@, name@),
{
    proof {
        reveal_strlit("::");
    }
    let r = module.clone().concat("::").concat(name.as_str());
    r
}

/// `text` followed by `suffix`.
pub fn with_suffix(text: &String, suffix: &str) -> (r: String)
    ensures
        r@ == text@ + suffix@,
{
    text.clone().concat(suffix)
}

/// The lower-case form of a text, as `str::to_lowercase` gives it.
pub uninterp spec fn lowercase_of(s: Seq<char>) -> Seq<char>;

/// `str::to_lowercase`: the result is the lower-case form of the argument.
#[verifier::external_body]
pub(crate) fn to_lowercase(s: &String) -> (r: String)
    ensures
        r@ == lowercase_of(s@),
{
    s.to_lowercase()
}

} // verus!
