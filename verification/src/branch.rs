//! The branch label: what the version-control tool printed, trimmed, or a
//! fixed fallback when it printed nothing useful.

use crate::text::char_count_bound;
use vstd::prelude::*;
use vstd::string::*;

verus! {

/// Label shown when no branch name is known.
pub const NO_BRANCH: &'static str = "no-git";

/// The characters that count as white space: those with the Unicode property `White_Space`.
pub open spec fn is_white_space(c: char) -> bool {
    let v = c as u32;
    ||| 0x09 <= v <= 0x0D
    ||| v == 0x20
    ||| v == 0x85
    ||| v == 0xA0
    ||| v == 0x1680
    ||| 0x2000 <= v <= 0x200A
    ||| v == 0x2028
    ||| v == 0x2029
    ||| v == 0x202F
    ||| v == 0x205F
    ||| v == 0x3000
}

/// How many white-space characters `text` begins with.
pub open spec fn leading_white_space(text: Seq<char>) -> nat
    decreases text.len(),
{
    if text.len() > 0 && is_white_space(text[0]) {
        1 + leading_white_space(text.drop_first())
    } else {
        0
    }
}

/// How many white-space characters `text` ends with.
pub open spec fn trailing_white_space(text: Seq<char>) -> nat
    decreases text.len(),
{
    if text.len() > 0 && is_white_space(text.last()) {
        1 + trailing_white_space(text.drop_last())
    } else {
        0
    }
}

/// `text` without the white space at its two ends.
pub open spec fn trimmed(text: Seq<char>) -> Seq<char> {
    let from = leading_white_space(text) as int;
    let to = text.len() - trailing_white_space(text);
    if from >= to {
        Seq::empty()
    } else {
        text.subrange(from, to)
    }
}

/// The label for what the version-control tool printed, if it ran at all.
pub open spec fn branch_label(printed: Option<Seq<char>>) -> Seq<char> {
    match printed {
        Some(text) => if trimmed(text).len() == 0 {
            NO_BRANCH@
        } else {
            trimmed(text)
        },
        None => NO_BRANCH@,
    }
}

/// The leading white space ends at the first character that is none.
pub proof fn lemma_leading_white_space(text: Seq<char>, k: int)
    requires
        0 <= k <= text.len(),
        forall|j: int| 0 <= j < k ==> is_white_space(text[j]),
        k < text.len() ==> !is_white_space(text[k]),
    ensures
        leading_white_space(text) == k,
    decreases k,
{
    if k > 0 {
        let rest = text.drop_first();
        assert forall|j: int| 0 <= j < k - 1 implies is_white_space(rest[j]) by {
            assert(rest[j] == text[j + 1]);
        }
        if k - 1 < rest.len() {
            assert(rest[k - 1] == text[k]);
        }
        lemma_leading_white_space(rest, k - 1);
    }
}

/// The trailing white space begins after the last character that is none.
pub proof fn lemma_trailing_white_space(text: Seq<char>, k: int)
    requires
        0 <= k <= text.len(),
        forall|j: int| k <= j < text.len() ==> is_white_space(text[j]),
        k > 0 ==> !is_white_space(text[k - 1]),
    ensures
        trailing_white_space(text) == text.len() - k,
    decreases text.len() - k,
{
    if k < text.len() {
        let rest = text.drop_last();
        assert forall|j: int| k <= j < rest.len() implies is_white_space(rest[j]) by {
            assert(rest[j] == text[j]);
        }
        if k > 0 {
            assert(rest[k - 1] == text[k - 1]);
        }
        lemma_trailing_white_space(rest, k);
    }
}

/// Tells whether `c` is white space.
pub fn is_white_space_char(c: char) -> (white: bool)
    ensures
        white == is_white_space(c),
{
    let v: u32 = c as u32;
    (0x09 <= v && v <= 0x0D) || v == 0x20 || v == 0x85 || v == 0xA0 || v == 0x1680 || (0x2000 <= v
        && v <= 0x200A) || v == 0x2028 || v == 0x2029 || v == 0x202F || v == 0x205F || v == 0x3000
}

/// Returns `text` without the white space at its two ends.
pub fn trim(text: &str) -> (inner: &str)
    ensures
        inner@ == trimmed(text@),
{
    let bound = char_count_bound(text);
    let mut found: bool = false;
    let mut from: usize = 0;
    let mut to: usize = 0;
    let mut pos: usize = 0;
    let ghost whole = text@;
    for c in it: text.chars()
        invariant
            it.seq() == whole,
            whole.len() <= bound,
            pos == it.index(),
            !found ==> from == 0 && to == 0,
            !found ==> forall|j: int| 0 <= j < pos ==> is_white_space(whole[j]),
            found ==> from < to <= pos,
            found ==> forall|j: int| 0 <= j < from ==> is_white_space(whole[j]),
            found ==> !is_white_space(whole[from as int]),
            found ==> !is_white_space(whole[to - 1]),
            found ==> forall|j: int| to <= j < pos ==> is_white_space(whole[j]),
    {
        if !is_white_space_char(c) {
            if !found {
                found = true;
                from = pos;
            }
            to = pos + 1;
        }
        pos = pos + 1;
    }
    proof {
        if found {
            lemma_leading_white_space(whole, from as int);
            lemma_trailing_white_space(whole, to as int);
        } else {
            lemma_leading_white_space(whole, whole.len() as int);
        }
    }
    text.substring_char(from, to)
}

/// Chooses the branch label from what the version-control tool printed:
/// the trimmed text, or the fallback when it is empty or the tool did not run.
pub fn branch_name(printed: Option<&str>) -> (label: String)
    ensures
        label@ == branch_label(
            match printed {
                Some(text) => Some(text@),
                None => None,
            },
        ),
{
    match printed {
        Some(text) => {
            let inner = trim(text);
            if inner.is_empty() {
                String::from_str(NO_BRANCH)
            } else {
                String::from_str(inner)
            }
        },
        None => String::from_str(NO_BRANCH),
    }
}

} // verus!
