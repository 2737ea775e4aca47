use vstd::prelude::*;

verus! {

/// What the browser knows of one indexed table: the file stem of its path
/// (absent where the path has none) and the texts read from the table file.
pub struct TableEntry {
    pub file_stem: Option<String>,
    pub table_name: Option<String>,
    pub table_description: Option<String>,
    pub table_rules: Option<String>,
}

/// The characters with the Unicode property White_Space.
pub open spec fn is_white_space(c: char) -> bool {
    let u = c as u32;
    ||| 0x09 <= u <= 0x0d
    ||| u == 0x20
    ||| u == 0x85
    ||| u == 0xa0
    ||| u == 0x1680
    ||| 0x2000 <= u <= 0x200a
    ||| u == 0x2028
    ||| u == 0x2029
    ||| u == 0x202f
    ||| u == 0x205f
    ||| u == 0x3000
}

/// `s[start..end]` is what remains of `s` without its leading and trailing
/// white space: everything outside it is white space, and it neither starts
/// nor ends with white space.
pub open spec fn trim_bounds(s: Seq<char>, start: int, end: int) -> bool {
    &&& 0 <= start <= end <= s.len()
    &&& forall|k: int| 0 <= k < start ==> is_white_space(#[trigger] s[k])
    &&& forall|k: int| end <= k < s.len() ==> is_white_space(#[trigger] s[k])
    &&& start < end ==> !is_white_space(s[start]) && !is_white_space(s[end - 1])
}

/// `t` is `s` without its leading and trailing white space.
pub open spec fn is_trim_of(s: Seq<char>, t: Seq<char>) -> bool {
    exists|start: int, end: int| trim_bounds(s, start, end) && t == s.subrange(start, end)
}

/// `str::trim`: the text with its leading and trailing White_Space removed.
#[verifier::external_body]
pub(crate) fn trim(s: &str) -> (r: &str)
    ensures
        is_trim_of(s@, r@),
{
    s.trim()
}

/// What `str::to_uppercase` makes of a text: each character replaced by its
/// Unicode upper-case mapping.
pub uninterp spec fn uppercased(s: Seq<char>) -> Seq<char>;

/// `str::to_uppercase`: the text in upper case. The contract names the
/// result and says nothing more of it.
#[verifier::external_body]
pub(crate) fn to_uppercase(s: &str) -> (r: String)
    ensures
        r@ == uppercased(s@),
{
    s.to_uppercase()
}

/// A text is blank when nothing but white space is in it.
pub open spec fn is_blank(s: Seq<char>) -> bool {
    forall|k: int| 0 <= k < s.len() ==> is_white_space(#[trigger] s[k])
}

/// A text that is not blank is not empty.
pub proof fn lemma_not_blank_not_empty(s: Seq<char>)
    requires
        !is_blank(s),
    ensures
        s.len() > 0,
{
}

/// Whether `s` is blank, as `s.trim().is_empty()` tells.
pub fn blank(s: &str) -> (r: bool)
    ensures
        r == is_blank(s@),
{
    let trimmed = trim(s);
    let r = trimmed.is_empty();
    proof {
        let (start, end) = choose|start: int, end: int|
            trim_bounds(s@, start, end) && trimmed@ == s@.subrange(start, end);
        if r {
            assert(start == end);
            assert forall|k: int| 0 <= k < s@.len() implies is_white_space(#[trigger] s@[k]) by {
                if k < start {
                } else {
                }
            }
        } else {
            assert(start < end);
            assert(!is_white_space(s@[start]));
        }
    }
    r
}

/// `s` with its first character in upper case.
pub open spec fn capitalized(s: Seq<char>) -> Seq<char> {
    uppercased(s.take(1)) + s.skip(1)
}

} // verus!
