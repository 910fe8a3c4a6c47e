//! Longest run of one character inside a string.

use vstd::prelude::*;

verus! {

/// `len` consecutive positions of `s`, beginning at `start`, all hold `c`.
pub open spec fn is_streak(s: Seq<char>, c: char, start: int, len: int) -> bool {
    &&& 0 <= start
    &&& 0 <= len
    &&& start + len <= s.len()
    &&& forall|i: int| start <= i < start + len ==> s[i] == c
}

/// No streak of `c` inside the first `upto` positions of `s` is longer than `len`.
pub open spec fn no_longer_streak(s: Seq<char>, c: char, upto: int, len: int) -> bool {
    forall|a: int, l: int| is_streak(s, c, a, l) && a + l <= upto ==> l <= len
}

/// No streak of `c` of length `len` inside the first `upto` positions of `s`
/// begins before `start`.
pub open spec fn no_earlier_streak(s: Seq<char>, c: char, upto: int, start: int, len: int) -> bool {
    forall|a: int| is_streak(s, c, a, len) && a + len <= upto ==> start <= a
}

/// Find the substring that contains the longest streak of the given character.
///
/// The result is the first of the longest runs of `needle` in `haystack`, and
/// empty when `needle` does not occur.
pub fn find_longest_streak(haystack: &str, needle: char) -> (streak: &str)
    ensures
        forall|i: int| 0 <= i < streak@.len() ==> streak@[i] == needle,
        no_longer_streak(haystack@, needle, haystack@.len() as int, streak@.len() as int),
        exists|start: int|
            {
                &&& is_streak(haystack@, needle, start, streak@.len() as int)
                &&& streak@ == haystack@.subrange(start, start + streak@.len())
                &&& streak@.len() > 0 ==> no_earlier_streak(
                    haystack@,
                    needle,
                    haystack@.len() as int,
                    start,
                    streak@.len() as int,
                )
            },
{
    let total: usize = haystack.unicode_len();
    let mut max_length: usize = 0;
    let mut max_start: usize = 0;
    let mut current_start: usize = 0;
    let mut current_length: usize = 0;
    let mut position: usize = 0;

    for ch in it: haystack.chars()
        invariant
            it.seq() == haystack@,
            total == haystack@.len(),
            position == it.index(),
            current_length <= position,
            current_length > 0 ==> current_start + current_length == position,
            is_streak(haystack@, needle, position - current_length, current_length as int),
            position - current_length > 0 ==> haystack@[position - current_length - 1] != needle,
            is_streak(haystack@, needle, max_start as int, max_length as int),
            max_start + max_length <= position,
            no_longer_streak(haystack@, needle, position as int, max_length as int),
            max_length > 0 ==> no_earlier_streak(
                haystack@,
                needle,
                position as int,
                max_start as int,
                max_length as int,
            ),
    {
        if ch == needle {
            if current_length == 0 {
                current_start = position;
            }
            current_length += 1;
            if current_length > max_length {
                max_length = current_length;
                max_start = current_start;
            }
        } else {
            current_length = 0;
        }
        position += 1;
    }

    if max_length == 0 {
        proof {
            reveal_strlit("");
            assert(is_streak(haystack@, needle, 0, 0));
            assert(""@ =~= haystack@.subrange(0, 0));
        }
        return "";
    }
    let streak = haystack.substring_char(max_start, max_start + max_length);
    proof {
        assert(streak@.len() == max_length);
        assert(is_streak(haystack@, needle, max_start as int, streak@.len() as int));
    }
    streak
}

} // verus!
