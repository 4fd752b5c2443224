//! Removal of markup tags from a card's description.
//!
//! The tags are removed by the `regex` crate; what it hands back is then
//! scanned here, so that a text accepted as clean provably holds no tag.

use vstd::prelude::*;
use vstd::string::*;

verus! {

/// The pattern of a markup tag: an opening angle bracket, as few characters
/// of the same line as possible, and a closing angle bracket.
pub const TAG_PATTERN: &'static str = "<.*?>";

/// What `regex::Regex::replace_all` returns for the regular expression
/// compiled from `pattern`, the haystack `text` and the replacement
/// `replacement`; `None` where `regex::Regex::new` rejects the pattern.
pub uninterp spec fn regex_replace_all(
    pattern: Seq<char>,
    text: Seq<char>,
    replacement: Seq<char>,
) -> Option<Seq<char>>;

/// Calls `regex::Regex::new` on `pattern` and, where that compiles,
/// `Regex::replace_all` on `text` with `replacement`. The contract only names
/// the outcome: it is `None` exactly where the pattern is rejected, and the
/// replaced text otherwise.
#[verifier::external_body]
fn replace_all(pattern: &str, text: &str, replacement: &str) -> (res: Option<String>)
    ensures
        match res {
            Some(s) => regex_replace_all(pattern@, text@, replacement@) == Some(s@),
            None => regex_replace_all(pattern@, text@, replacement@) is None,
        },
{
    match regex::Regex::new(pattern) {
        Ok(re) => Some(re.replace_all(text, replacement).into_owned()),
        Err(_) => None,
    }
}

/// No line break lies strictly between positions `i` and `j` of `s`.
pub open spec fn same_line(s: Seq<char>, i: int, j: int) -> bool {
    forall|k: int| i < k < j ==> s[k] != '\n'
}

/// Positions `i` and `j` of `s` are the brackets of a tag.
pub open spec fn is_tag(s: Seq<char>, i: int, j: int) -> bool {
    0 <= i < j < s.len() && s[i] == '<' && s[j] == '>' && same_line(s, i, j)
}

/// `s` holds a markup tag somewhere.
pub open spec fn contains_markup(s: Seq<char>) -> bool {
    exists|i: int, j: int| is_tag(s, i, j)
}

/// Tells whether `text` holds a markup tag.
pub fn has_markup(text: &str) -> (found: bool)
    ensures
        found == contains_markup(text@),
{
    let n: usize = text.unicode_len();
    let mut pos: usize = 0;
    let mut open: bool = false;
    let ghost start: int = 0;
    while pos < n
        invariant
            n == text@.len(),
            pos <= n,
            forall|i: int, j: int| j < pos ==> !is_tag(text@, i, j),
            open ==> 0 <= start < pos && text@[start] == '<' && same_line(text@, start, pos as int),
            !open ==> forall|i: int|
                0 <= i < pos && text@[i] == '<' ==> !same_line(text@, i, pos as int),
        decreases n - pos,
    {
        let c: char = text.get_char(pos);
        if c == '>' && open {
            assert(is_tag(text@, start, pos as int));
            return true;
        }
        if c == '<' {
            open = true;
            proof {
                start = pos as int;
            }
        } else if c == '\n' {
            open = false;
        }
        proof {
            let s = text@;
            let p = pos as int;
            assert forall|i: int| !is_tag(s, i, p) by {
                if is_tag(s, i, p) {
                    assert(same_line(s, i, p));
                }
            }
            if !open {
                assert forall|i: int| 0 <= i < p + 1 && s[i] == '<' implies !same_line(
                    s,
                    i,
                    p + 1,
                ) by {
                    if c == '\n' {
                        assert(s[p] == '\n');
                    } else {
                        assert(!same_line(s, i, p));
                        let k = choose|k: int| i < k < p && s[k] == '\n';
                        assert(s[k] == '\n');
                    }
                }
            }
        }
        pos += 1;
    }
    false
}

/// The description `text` with its tags removed: what the regular expression
/// leaves of it, provided that this holds no tag any more.
pub open spec fn cleaned_text(text: Seq<char>) -> Option<Seq<char>> {
    match regex_replace_all(TAG_PATTERN@, text, ""@) {
        Some(t) => if contains_markup(t) {
            None
        } else {
            Some(t)
        },
        None => None,
    }
}

/// Decides what becomes of `replaced`, the outcome of the replacement: it is
/// the cleaned text where it is there and free of tags.
pub fn accept_cleaned(replaced: Option<String>) -> (res: Option<String>)
    ensures
        match replaced {
            Some(t) => if contains_markup(t@) {
                res is None
            } else {
                res == Some(t)
            },
            None => res is None,
        },
{
    match replaced {
        Some(t) => if has_markup(t.as_str()) {
            None
        } else {
            Some(t)
        },
        None => None,
    }
}

/// Removes the markup tags from `text`.
pub fn strip_markup(text: &str) -> (res: Option<String>)
    ensures
        match res {
            Some(t) => cleaned_text(text@) == Some(t@),
            None => cleaned_text(text@) is None,
        },
        res matches Some(t) ==> !contains_markup(t@),
{
    accept_cleaned(replace_all(TAG_PATTERN, text, ""))
}

} // verus!
