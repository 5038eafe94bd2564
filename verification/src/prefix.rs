//! The textual marker in front of every token, and the white space behind it.

use vstd::prelude::*;
use vstd::std_specs::iter::IteratorSpec;
use vstd::string::StrSliceExecFns;
use crate::error::FormatError;

verus! {

/// Whether `c` has the Unicode property White_Space.
pub open spec fn is_white_space(c: char) -> bool {
    let n = c as int;
    ||| 0x09 <= n <= 0x0D
    ||| n == 0x20
    ||| n == 0x85
    ||| n == 0xA0
    ||| n == 0x1680
    ||| 0x2000 <= n <= 0x200A
    ||| n == 0x2028
    ||| n == 0x2029
    ||| n == 0x202F
    ||| n == 0x205F
    ||| n == 0x3000
}

/// The length of `s` without its trailing white space.
pub open spec fn trimmed_len(s: Seq<char>) -> nat
    decreases s.len(),
{
    if s.len() == 0 {
        0
    } else if is_white_space(s.last()) {
        trimmed_len(s.drop_last())
    } else {
        s.len()
    }
}

/// `s` without its trailing white space.
pub open spec fn trimmed(s: Seq<char>) -> Seq<char> {
    s.take(trimmed_len(s) as int)
}

/// The marker that every token starts with: `HC1:`.
pub open spec fn marker() -> Seq<char> {
    seq!['H', 'C', '1', ':']
}

/// What follows the marker in `s`, trailing white space removed; `None` where
/// `s` does not start with the marker.
pub open spec fn stripped(s: Seq<char>) -> Option<Seq<char>> {
    let t = trimmed(s);
    if t.len() >= 4 && t.take(4) == marker() {
        Some(t.skip(4))
    } else {
        None
    }
}

/// Tells whether `c` is white space.
pub fn white_space(c: char) -> (r: bool)
    ensures
        r == is_white_space(c),
{
    let n: u32 = c as u32;
    (0x09 <= n && n <= 0x0D) || n == 0x20 || n == 0x85 || n == 0xA0 || n == 0x1680
        || (0x2000 <= n && n <= 0x200A) || n == 0x2028 || n == 0x2029 || n == 0x202F
        || n == 0x205F || n == 0x3000
}

/// Appending a character keeps the trimmed length where the character is
/// white space, and makes it the whole length where it is not.
proof fn lemma_trimmed_len_push(s: Seq<char>, c: char)
    ensures
        trimmed_len(s.push(c)) == if is_white_space(c) {
            trimmed_len(s)
        } else {
            s.len() + 1
        },
{
    assert(s.push(c).drop_last() == s);
}

/// Trimming removes white space only, and all of it: what is kept does not
/// end in white space, and every character behind it is white space.
pub proof fn lemma_trimmed_len_exact(s: Seq<char>)
    ensures
        trimmed_len(s) <= s.len(),
        trimmed_len(s) > 0 ==> !is_white_space(s[trimmed_len(s) - 1]),
        forall|i: int| trimmed_len(s) <= i < s.len() ==> is_white_space(#[trigger] s[i]),
    decreases s.len(),
{
    if s.len() > 0 && is_white_space(s.last()) {
        let front = s.drop_last();
        lemma_trimmed_len_exact(front);
        assert forall|i: int| trimmed_len(s) <= i < s.len() implies is_white_space(
            #[trigger] s[i],
        ) by {
            if i < front.len() {
                assert(front[i] == s[i]);
            }
        }
        if trimmed_len(s) > 0 {
            assert(front[trimmed_len(s) - 1] == s[trimmed_len(s) - 1]);
        }
    }
}

/// Whether `s` starts with the marker.
pub open spec fn starts_with_marker(s: Seq<char>) -> bool {
    s.len() >= 4 && s.take(4) == marker()
}

/// Something stands behind the marker exactly where the text starts with
/// the marker, and it is the trimmed text without its first four characters.
pub proof fn lemma_stripped_exact(s: Seq<char>)
    ensures
        stripped(s) is Some <==> starts_with_marker(s),
        stripped(s) matches Some(body) ==> marker() + body == trimmed(s),
{
    lemma_trimmed_len_exact(s);
    let t = trimmed(s);
    if t.len() >= 4 {
        assert(t.take(4) =~= s.take(4));
        assert(t.take(4) + t.skip(4) =~= t);
    }
    if starts_with_marker(s) {
        assert(s[3] == s.take(4)[3]);
        assert(!is_white_space(s[3]));
    }
}

/// Behind the marker stands what was put there, where that does not end in
/// white space.
pub proof fn lemma_stripped_marked(text: Seq<char>)
    requires
        text.len() == 0 || !is_white_space(text.last()),
    ensures
        stripped(marker() + text) == Some(text),
{
    let s = marker() + text;
    assert(!is_white_space(s.last()));
    assert(trimmed(s) =~= s);
    assert(s.take(4) =~= marker());
    assert(s.skip(4) =~= text);
}

/// Counts the characters of `text` up to its trailing white space.
fn measure(text: &str) -> (keep: usize)
    ensures
        keep == trimmed_len(text@),
        keep <= text@.len(),
{
    broadcast use vstd::string::group_string_axioms;

    let total = text.unicode_len();
    let mut rest = text.chars();
    let mut seen: usize = 0;
    let mut keep: usize = 0;
    loop
        invariant
            total == text@.len(),
            seen <= total,
            rest.remaining() == text@.skip(seen as int),
            keep == trimmed_len(text@.take(seen as int)),
            keep <= seen,
        ensures
            keep == trimmed_len(text@),
            keep <= total,
        decreases total - seen,
    {
        match rest.next() {
            Some(c) => {
                proof {
                    assert(c == text@[seen as int]);
                    assert(text@.take(seen + 1) == text@.take(seen as int).push(c));
                    lemma_trimmed_len_push(text@.take(seen as int), c);
                    assert(text@.skip(seen as int).drop_first() == text@.skip(seen + 1));
                }
                seen = seen + 1;
                if !white_space(c) {
                    keep = seen;
                }
            },
            None => {
                proof {
                    assert(text@.take(seen as int) == text@);
                }
                break ;
            },
        }
    }
    keep
}

/// Removes trailing white space and the marker `HC1:` from `text`.
///
/// Fails with [`FormatError::MissingPrefix`] exactly where [`stripped`] is
/// `None`, which is where the text does not start with the marker.
pub fn strip_marker(text: &str) -> (r: Result<&str, FormatError>)
    ensures
        match r {
            Ok(body) => stripped(text@) == Some(body@),
            Err(e) => e == FormatError::MissingPrefix && stripped(text@) is None,
        },
{
    let keep = measure(text);
    if keep >= 4 && text.get_char(0) == 'H' && text.get_char(1) == 'C' && text.get_char(2) == '1'
        && text.get_char(3) == ':' {
        let body = text.substring_char(4, keep);
        proof {
            assert(trimmed(text@).take(4) == marker());
            assert(trimmed(text@).skip(4) == text@.subrange(4, keep as int));
        }
        Ok(body)
    } else {
        proof {
            if keep >= 4 {
                let t = trimmed(text@);
                assert(t.take(4)[0] == t[0] && t.take(4)[1] == t[1] && t.take(4)[2] == t[2]
                    && t.take(4)[3] == t[3]);
            }
        }
        Err(FormatError::MissingPrefix)
    }
}

} // verus!
