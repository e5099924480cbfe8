//! The note list panel: the one-line label shown for each note.

use vstd::prelude::*;
use crate::note::Note;

verus! {

/// Characters of a note's text shown before it is cut off.
pub const MAX_LABEL_CHARS: usize = 24;

/// Unicode's White_Space property, which `char::is_whitespace` and
/// `str::trim` use: tab through carriage return, space, next line,
/// no-break space, ogham space mark, en quad through hair space, line and
/// paragraph separators, narrow no-break space, medium mathematical space,
/// and ideographic space.
pub open spec fn is_white_space(c: char) -> bool {
    let v = c as u32;
    ||| 0x9 <= v <= 0xd
    ||| v == 0x20
    ||| v == 0x85
    ||| v == 0xa0
    ||| v == 0x1680
    ||| 0x2000 <= v <= 0x200a
    ||| v == 0x2028
    ||| v == 0x2029
    ||| v == 0x202f
    ||| v == 0x205f
    ||| v == 0x3000
}

/// How many white-space characters `s` starts with.
pub open spec fn leading_white_space(s: Seq<char>) -> nat
    decreases s.len(),
{
    if s.len() > 0 && is_white_space(s[0]) {
        1 + leading_white_space(s.drop_first())
    } else {
        0
    }
}

/// How many white-space characters `s` ends with.
pub open spec fn trailing_white_space(s: Seq<char>) -> nat
    decreases s.len(),
{
    if s.len() > 0 && is_white_space(s.last()) {
        1 + trailing_white_space(s.drop_last())
    } else {
        0
    }
}

/// `s` without its leading and then its trailing white space.
pub open spec fn trimmed(s: Seq<char>) -> Seq<char> {
    let a = s.skip(leading_white_space(s) as int);
    a.take(a.len() - trailing_white_space(a))
}

proof fn lemma_leading_white_space(s: Seq<char>)
    ensures
        leading_white_space(s) <= s.len(),
        forall|i: int| 0 <= i < leading_white_space(s) ==> is_white_space(#[trigger] s[i]),
        leading_white_space(s) < s.len() ==> !is_white_space(s[leading_white_space(s) as int]),
    decreases s.len(),
{
    if s.len() > 0 && is_white_space(s[0]) {
        let r = s.drop_first();
        lemma_leading_white_space(r);
        assert forall|i: int| 0 <= i < leading_white_space(s) implies is_white_space(#[trigger] s[i]) by {
            if i > 0 {
                assert(s[i] == r[i - 1]);
            }
        }
    }
}

proof fn lemma_trailing_white_space(s: Seq<char>)
    ensures
        trailing_white_space(s) <= s.len(),
        trailing_white_space(s) < s.len() ==> !is_white_space(
            s[s.len() - 1 - trailing_white_space(s)],
        ),
    decreases s.len(),
{
    if s.len() > 0 && is_white_space(s.last()) {
        lemma_trailing_white_space(s.drop_last());
    }
}

/// `trimmed(s)` is a contiguous part of `s` that starts and ends with a
/// character other than white space, and only white space was cut in front.
pub proof fn lemma_trimmed_shape(s: Seq<char>)
    ensures
        trimmed(s) == s.subrange(
            leading_white_space(s) as int,
            (leading_white_space(s) + trimmed(s).len()) as int,
        ),
        leading_white_space(s) + trimmed(s).len() <= s.len(),
        forall|i: int| 0 <= i < leading_white_space(s) ==> is_white_space(#[trigger] s[i]),
        trimmed(s).len() > 0 ==> !is_white_space(trimmed(s)[0]) && !is_white_space(
            trimmed(s).last(),
        ),
{
    lemma_leading_white_space(s);
    let k = leading_white_space(s) as int;
    let a = s.skip(k);
    lemma_trailing_white_space(a);
    let t = trimmed(s);
    assert(t =~= s.subrange(k, k + t.len()));
    if t.len() > 0 {
        assert(t[0] == s[k]);
        assert(t.last() == a[a.len() - 1 - trailing_white_space(a)]);
    }
}

/// `str::trim`: the string slice without leading and trailing white space,
/// white space being Unicode's White_Space property.
#[verifier::external_body]
fn trim(s: &str) -> (r: &str)
    ensures
        r@ == trimmed(s@),
{
    s.trim()
}

/// The label of a note whose trimmed text is `t`: a placeholder when
/// empty, else the text, cut to 24 characters plus an ellipsis.
pub open spec fn spec_label(t: Seq<char>) -> Seq<char> {
    if t.len() == 0 {
        "(빈 메모)"@
    } else if t.len() > MAX_LABEL_CHARS {
        t.subrange(0, MAX_LABEL_CHARS as int) + "…"@
    } else {
        t
    }
}

/// The label of a note whose trimmed text is `trimmed_text`.
pub fn label_from_trimmed(trimmed_text: &str) -> (r: String)
    ensures
        r@ == spec_label(trimmed_text@),
{
    let count = trimmed_text.unicode_len();
    if count == 0 {
        return String::from_str("(빈 메모)");
    }
    if count > MAX_LABEL_CHARS {
        let head = trimmed_text.substring_char(0, MAX_LABEL_CHARS);
        String::from_str(head).concat("…")
    } else {
        String::from_str(trimmed_text)
    }
}

/// The label shown for a note in the list panel.
pub fn label_for(note: &Note) -> (r: String)
    ensures
        r@ == spec_label(trimmed(note.text@)),
{
    label_from_trimmed(trim(note.text.as_str()))
}

/// A label never exceeds 25 characters.
pub proof fn lemma_label_length(t: Seq<char>)
    ensures
        spec_label(t).len() <= MAX_LABEL_CHARS + 1,
{
    reveal_strlit("(빈 메모)");
    reveal_strlit("…");
}

} // verus!
