//! White space and trimming of character sequences.

use vstd::prelude::*;
use vstd::string::*;

verus! {

/// Whether `c`, a character beyond ASCII, has the Unicode property
/// `White_Space`. Which characters have it is not spelled out here.
pub uninterp spec fn has_white_space_property(c: char) -> bool;

/// Whether `c` is white space, that is, has the Unicode property
/// `White_Space`. Of the ASCII characters these are the space and the five
/// from U+0009 (tab) to U+000D (carriage return).
pub open spec fn is_white_space(c: char) -> bool {
    if c as u32 <= 0x7f {
        c as u32 == 0x20 || 0x09 <= c as u32 <= 0x0d
    } else {
        has_white_space_property(c)
    }
}

/// `char::is_whitespace` reports whether the character has the Unicode
/// property `White_Space`. The ASCII characters that have it are written out;
/// beyond ASCII the property is named only. Together the two clauses say that
/// the result is `is_white_space(c)`.
pub assume_specification[ char::is_whitespace ](c: char) -> (white: bool)
    ensures
        c as u32 <= 0x7f ==> white == (c as u32 == 0x20 || 0x09 <= c as u32 <= 0x0d),
        c as u32 > 0x7f ==> white == has_white_space_property(c),
;

/// `s` without the white space it starts with.
pub open spec fn skip_leading_white_space(s: Seq<char>) -> Seq<char>
    decreases s.len(),
{
    if s.len() > 0 && is_white_space(s.first()) {
        skip_leading_white_space(s.drop_first())
    } else {
        s
    }
}

/// `s` without the white space it ends with.
pub open spec fn skip_trailing_white_space(s: Seq<char>) -> Seq<char>
    decreases s.len(),
{
    if s.len() > 0 && is_white_space(s.last()) {
        skip_trailing_white_space(s.drop_last())
    } else {
        s
    }
}

/// `s` without the white space at either end. White space between other
/// characters stays.
pub open spec fn trimmed(s: Seq<char>) -> Seq<char> {
    skip_trailing_white_space(skip_leading_white_space(s))
}

/// Every character of `s` is white space.
pub open spec fn is_blank(s: Seq<char>) -> bool {
    forall|i: int| 0 <= i < s.len() ==> is_white_space(#[trigger] s[i])
}

/// Skipping leading white space cuts `s` at `start`, if everything before
/// `start` is white space and the character at `start`, if there is one, is not.
pub proof fn lemma_skip_leading(s: Seq<char>, start: int)
    requires
        0 <= start <= s.len(),
        is_blank(s.subrange(0, start)),
        start < s.len() ==> !is_white_space(s[start]),
    ensures
        skip_leading_white_space(s) == s.subrange(start, s.len() as int),
    decreases start,
{
    if start > 0 {
        assert(s.subrange(0, start)[0] == s[0]);
        let rest = s.drop_first();
        assert forall|i: int| 0 <= i < start - 1 implies is_white_space(
            #[trigger] rest.subrange(0, start - 1)[i],
        ) by {
            assert(s.subrange(0, start)[i + 1] == s[i + 1]);
        }
        lemma_skip_leading(rest, start - 1);
    }
}

/// Skipping trailing white space cuts `s` at `end`, if everything from `end`
/// on is white space and the character before `end`, if there is one, is not.
pub proof fn lemma_skip_trailing(s: Seq<char>, end: int)
    requires
        0 <= end <= s.len(),
        is_blank(s.subrange(end, s.len() as int)),
        0 < end ==> !is_white_space(s[end - 1]),
    ensures
        skip_trailing_white_space(s) == s.subrange(0, end),
    decreases s.len() - end,
{
    if end < s.len() {
        assert(s.subrange(end, s.len() as int)[s.len() - end - 1] == s.last());
        let rest = s.drop_last();
        assert forall|i: int| 0 <= i < rest.len() - end implies is_white_space(
            #[trigger] rest.subrange(end, rest.len() as int)[i],
        ) by {
            assert(s.subrange(end, s.len() as int)[i] == s[end + i]);
        }
        lemma_skip_trailing(rest, end);
    }
}

/// Where the leading white space of `s` ends: everything before `start` is
/// white space, and the character at `start`, if there is one, is not.
pub proof fn lemma_leading_white_space(s: Seq<char>) -> (start: int)
    ensures
        0 <= start <= s.len(),
        is_blank(s.subrange(0, start)),
        start < s.len() ==> !is_white_space(s[start]),
        skip_leading_white_space(s) == s.subrange(start, s.len() as int),
    decreases s.len(),
{
    let start = if s.len() > 0 && is_white_space(s.first()) {
        let rest = s.drop_first();
        let inner = lemma_leading_white_space(rest);
        assert forall|i: int| 0 <= i < inner + 1 implies is_white_space(
            #[trigger] s.subrange(0, inner + 1)[i],
        ) by {
            if i > 0 {
                assert(rest.subrange(0, inner)[i - 1] == s[i]);
            }
        }
        inner + 1
    } else {
        0
    };
    lemma_skip_leading(s, start);
    start
}

/// Where the trailing white space of `s` begins: everything from `end` on is
/// white space, and the character before `end`, if there is one, is not.
pub proof fn lemma_trailing_white_space(s: Seq<char>) -> (end: int)
    ensures
        0 <= end <= s.len(),
        is_blank(s.subrange(end, s.len() as int)),
        0 < end ==> !is_white_space(s[end - 1]),
        skip_trailing_white_space(s) == s.subrange(0, end),
    decreases s.len(),
{
    let end = if s.len() > 0 && is_white_space(s.last()) {
        let rest = s.drop_last();
        let inner = lemma_trailing_white_space(rest);
        assert forall|i: int| 0 <= i < s.len() - inner implies is_white_space(
            #[trigger] s.subrange(inner, s.len() as int)[i],
        ) by {
            if i < rest.len() - inner {
                assert(rest.subrange(inner, rest.len() as int)[i] == s[inner + i]);
            }
        }
        inner
    } else {
        s.len() as int
    };
    lemma_skip_trailing(s, end);
    end
}

/// Trimming cuts one piece out of `s`, from `bounds.0` to `bounds.1`: what lies
/// before and after the piece is white space, the piece neither starts nor ends
/// with white space, and everything inside it, white space too, is kept.
pub proof fn lemma_trimmed_is_middle(s: Seq<char>) -> (bounds: (int, int))
    ensures
        0 <= bounds.0 <= bounds.1 <= s.len(),
        trimmed(s) == s.subrange(bounds.0, bounds.1),
        is_blank(s.subrange(0, bounds.0)),
        is_blank(s.subrange(bounds.1, s.len() as int)),
        bounds.0 < bounds.1 ==> !is_white_space(s[bounds.0]) && !is_white_space(s[bounds.1 - 1]),
{
    let start = lemma_leading_white_space(s);
    let rest = s.subrange(start, s.len() as int);
    let end = start + lemma_trailing_white_space(rest);
    assert(rest.subrange(end - start, rest.len() as int) == s.subrange(end, s.len() as int));
    (start, end)
}

/// Nothing is left of `s` after trimming exactly if `s` is white space
/// throughout.
pub proof fn lemma_trimmed_empty_iff_blank(s: Seq<char>)
    ensures
        trimmed(s).len() == 0 <==> is_blank(s),
{
    let (start, end) = lemma_trimmed_is_middle(s);
    if !is_blank(s) {
        let i = choose|i: int| 0 <= i < s.len() && !is_white_space(s[i]);
        if i < start {
            assert(s.subrange(0, start)[i] == s[i]);
        } else if i >= end {
            assert(s.subrange(end, s.len() as int)[i - end] == s[i]);
        }
    }
}

/// A copy of `s` without the white space at either end.
pub fn trim(s: &str) -> (kept: String)
    ensures
        kept@ == trimmed(s@),
{
    broadcast use vstd::string::group_string_axioms;

    let len: usize = s.unicode_len();
    let mut start: usize = len;
    let mut end: usize = len;
    let mut found: bool = false;
    let mut i: usize = 0;
    for c in chars: s.chars()
        invariant
            chars.seq() == s@,
            len == s@.len(),
            i == chars.index(),
            !found ==> start == len && end == len && is_blank(s@.subrange(0, i as int)),
            found ==> {
                &&& start < end <= i
                &&& is_blank(s@.subrange(0, start as int))
                &&& !is_white_space(s@[start as int])
                &&& !is_white_space(s@[end - 1])
                &&& is_blank(s@.subrange(end as int, i as int))
            },
    {
        if !c.is_whitespace() {
            if !found {
                start = i;
                found = true;
            }
            end = i + 1;
        }
        i += 1;
    }
    proof {
        lemma_skip_leading(s@, start as int);
        let rest = s@.subrange(start as int, len as int);
        assert(rest.subrange(end - start, rest.len() as int) == s@.subrange(end as int, len as int));
        lemma_skip_trailing(rest, end - start);
    }
    s.substring_char(start, end).to_owned()
}

} // verus!
