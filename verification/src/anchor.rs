//! Link anchors for section headings.
use vstd::prelude::*;

verus! {

/// Whether `c` is white space: a character with the Unicode property
/// `White_Space`.
pub open spec fn is_white_space(c: char) -> bool {
    ||| c == ' '
    ||| ('\u{9}' <= c && c <= '\u{D}')
    ||| c == '\u{85}'
    ||| c == '\u{A0}'
    ||| c == '\u{1680}'
    ||| ('\u{2000}' <= c && c <= '\u{200A}')
    ||| c == '\u{2028}'
    ||| c == '\u{2029}'
    ||| c == '\u{202F}'
    ||| c == '\u{205F}'
    ||| c == '\u{3000}'
}

/// The number of white-space characters at the front of `s`.
pub open spec fn leading_space(s: Seq<char>) -> nat
    decreases s.len(),
{
    if s.len() == 0 || !is_white_space(s[0]) {
        0
    } else {
        1 + leading_space(s.drop_first())
    }
}

/// The number of white-space characters at the end of `s`.
pub open spec fn trailing_space(s: Seq<char>) -> nat
    decreases s.len(),
{
    if s.len() == 0 || !is_white_space(s.last()) {
        0
    } else {
        1 + trailing_space(s.drop_last())
    }
}

/// `s` without the white space at its front and at its end.
pub open spec fn trimmed(s: Seq<char>) -> Seq<char> {
    let rest = s.skip(leading_space(s) as int);
    rest.take(rest.len() - trailing_space(rest))
}

/// `s` with a hyphen in place of each space.
pub open spec fn dashed(s: Seq<char>) -> Seq<char> {
    Seq::new(
        s.len(),
        |i: int|
            if s[i] == ' ' {
                '-'
            } else {
                s[i]
            },
    )
}

/// The anchor of a heading: the heading without the white space around it,
/// a hyphen for each space.
pub open spec fn anchor_text(heading: Seq<char>) -> Seq<char> {
    dashed(trimmed(heading))
}

/// The first `count` characters are the leading white space where each of
/// them is white space and the next one, if any, is not.
proof fn lemma_leading_space_is(s: Seq<char>, count: int)
    requires
        0 <= count <= s.len(),
        forall|k: int| 0 <= k < count ==> is_white_space(#[trigger] s[k]),
        count < s.len() ==> !is_white_space(s[count]),
    ensures
        leading_space(s) == count,
    decreases s.len(),
{
    if count > 0 {
        lemma_leading_space_is(s.drop_first(), count - 1);
    }
}

/// The last `count` characters are the trailing white space where each of
/// them is white space and the one before them, if any, is not.
proof fn lemma_trailing_space_is(s: Seq<char>, count: int)
    requires
        0 <= count <= s.len(),
        forall|k: int| s.len() - count <= k < s.len() ==> is_white_space(#[trigger] s[k]),
        count < s.len() ==> !is_white_space(s[s.len() - count - 1]),
    ensures
        trailing_space(s) == count,
    decreases s.len(),
{
    if count > 0 {
        lemma_trailing_space_is(s.drop_last(), count - 1);
    }
}

/// Whether `c` is white space.
pub fn is_space(c: char) -> (r: bool)
    ensures
        r == is_white_space(c),
{
    c == ' ' || ('\u{9}' <= c && c <= '\u{D}') || c == '\u{85}' || c == '\u{A0}' || c == '\u{1680}'
        || ('\u{2000}' <= c && c <= '\u{200A}') || c == '\u{2028}' || c == '\u{2029}' || c
        == '\u{202F}' || c == '\u{205F}' || c == '\u{3000}'
}

/// The anchor under which a section with the given heading can be linked.
pub fn anchor(heading: &str) -> (text: String)
    ensures
        text@ == anchor_text(heading@),
{
    let n = heading.unicode_len();
    let mut start: usize = 0;
    while start < n && is_space(heading.get_char(start))
        invariant
            start <= n,
            n == heading@.len(),
            forall|k: int| 0 <= k < start ==> is_white_space(#[trigger] heading@[k]),
        decreases n - start,
    {
        start = start + 1;
    }
    let ghost rest = heading@.skip(start as int);
    let mut end: usize = n;
    while end > start && is_space(heading.get_char(end - 1))
        invariant
            start <= end <= n,
            n == heading@.len(),
            forall|k: int| end <= k < n ==> is_white_space(#[trigger] heading@[k]),
        decreases end,
    {
        end = end - 1;
    }
    proof {
        lemma_leading_space_is(heading@, start as int);
        lemma_trailing_space_is(rest, n - end);
        reveal_strlit("-");
    }
    let ghost core = heading@.subrange(start as int, end as int);
    let mut text = String::new();
    let mut i: usize = start;
    while i < end
        invariant
            start <= i <= end <= n,
            n == heading@.len(),
            core == heading@.subrange(start as int, end as int),
            text@ == dashed(core.take(i - start)),
            "-"@ == seq!['-'],
        decreases end - i,
    {
        let c = heading.get_char(i);
        if c == ' ' {
            text.append("-");
        } else {
            text.append(heading.substring_char(i, i + 1));
        }
        assert(text@ =~= dashed(core.take(i + 1 - start)));
        i = i + 1;
    }
    text
}

} // verus!
