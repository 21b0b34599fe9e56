//! Character-level helpers shared by the parsing and normalising code.

use vstd::prelude::*;

verus! {

/// Whether `c` carries the Unicode `White_Space` property.
pub open spec fn is_whitespace(c: char) -> bool {
    ||| ('\u{9}' <= c && c <= '\u{d}')
    ||| c == ' '
    ||| c == '\u{85}'
    ||| c == '\u{a0}'
    ||| c == '\u{1680}'
    ||| ('\u{2000}' <= c && c <= '\u{200a}')
    ||| c == '\u{2028}'
    ||| c == '\u{2029}'
    ||| c == '\u{202f}'
    ||| c == '\u{205f}'
    ||| c == '\u{3000}'
}

/// Executable test for [`is_whitespace`].
pub fn char_is_whitespace(c: char) -> (r: bool)
    ensures
        r == is_whitespace(c),
{
    ('\u{9}' <= c && c <= '\u{d}') || c == ' ' || c == '\u{85}' || c == '\u{a0}' || c == '\u{1680}'
        || ('\u{2000}' <= c && c <= '\u{200a}') || c == '\u{2028}' || c == '\u{2029}' || c
        == '\u{202f}' || c == '\u{205f}' || c == '\u{3000}'
}

/// The characters of `s`, in order.
pub fn to_chars(s: &str) -> (r: Vec<char>)
    ensures
        r@ == s@,
{
    broadcast use vstd::string::group_string_axioms;

    let mut out: Vec<char> = Vec::new();
    for c in iter: s.chars()
        invariant
            iter.seq() == s@,
            out@ == s@.take(iter.index()),
    {
        out.push(c);
    }
    out
}

/// Whether two texts hold the same characters.
pub fn same_text(a: &str, b: &str) -> (r: bool)
    ensures
        r == (a@ == b@),
{
    let left = to_chars(a);
    let right = to_chars(b);
    if left.len() != right.len() {
        return false;
    }
    let mut i: usize = 0;
    while i < left.len()
        invariant
            left@ == a@,
            right@ == b@,
            left.len() == right.len(),
            i <= left.len(),
            forall|j: int| 0 <= j < i ==> left@[j] == right@[j],
        decreases left.len() - i,
    {
        if left[i] != right[i] {
            assert(a@[i as int] != b@[i as int]);
            return false;
        }
        i += 1;
    }
    assert(left@ =~= right@);
    true
}

/// Whether `needle` occurs in `hay` starting exactly at index `at`.
pub open spec fn matches_at(hay: Seq<char>, needle: Seq<char>, at: int) -> bool {
    &&& 0 <= at
    &&& at + needle.len() <= hay.len()
    &&& hay.subrange(at, at + needle.len()) == needle
}

/// The least index at or after `from` where `needle` occurs in `hay`, if any.
pub open spec fn first_match_from(hay: Seq<char>, needle: Seq<char>, from: int) -> Option<int>
    decreases hay.len() - from + 1,
{
    if from < 0 || from + needle.len() > hay.len() {
        None
    } else if matches_at(hay, needle, from) {
        Some(from)
    } else {
        first_match_from(hay, needle, from + 1)
    }
}

/// `first_match_from` yields an occurrence, no occurrence lies between `from`
/// and it, and it yields nothing only when there is no occurrence at all.
pub proof fn lemma_first_match_is_least(hay: Seq<char>, needle: Seq<char>, from: int)
    requires
        0 <= from,
    ensures
        match first_match_from(hay, needle, from) {
            Some(k) => {
                &&& from <= k
                &&& matches_at(hay, needle, k)
                &&& forall|j: int| from <= j < k ==> !matches_at(hay, needle, j)
            },
            None => forall|j: int| from <= j ==> !matches_at(hay, needle, j),
        },
    decreases hay.len() - from + 1,
{
    if from + needle.len() > hay.len() {
    } else if matches_at(hay, needle, from) {
    } else {
        lemma_first_match_is_least(hay, needle, from + 1);
    }
}

/// Whether `needle` occurs at index `at` within the first `limit` characters
/// of `hay`.
fn occurs_at(hay: &Vec<char>, needle: &Vec<char>, at: usize, limit: usize) -> (r: bool)
    requires
        limit <= hay.len(),
    ensures
        r == matches_at(hay@.subrange(0, limit as int), needle@, at as int),
{
    if needle.len() > limit || at > limit - needle.len() {
        return false;
    }
    let ghost window = hay@.subrange(0, limit as int);
    let mut k: usize = 0;
    while k < needle.len()
        invariant
            at + needle.len() <= limit <= hay.len(),
            k <= needle.len(),
            window == hay@.subrange(0, limit as int),
            forall|j: int| 0 <= j < k ==> hay@[at + j] == needle@[j],
        decreases needle.len() - k,
    {
        if hay[at + k] != needle[k] {
            assert(window.subrange(at as int, at + needle.len())[k as int] == hay@[at + k]);
            return false;
        }
        k += 1;
    }
    assert(window.subrange(at as int, at + needle.len()) =~= needle@);
    true
}

/// Finds the first occurrence of `needle` at or after `from` within the first
/// `limit` characters of `hay`.
pub fn find_from(hay: &Vec<char>, needle: &Vec<char>, from: usize, limit: usize) -> (r: Option<
    usize,
>)
    requires
        limit <= hay.len(),
    ensures
        match r {
            Some(i) => first_match_from(hay@.subrange(0, limit as int), needle@, from as int)
                == Some(i as int),
            None => first_match_from(hay@.subrange(0, limit as int), needle@, from as int)
                is None,
        },
{
    let ghost window = hay@.subrange(0, limit as int);
    if needle.len() > limit || from > limit - needle.len() {
        return None;
    }
    let last: usize = limit - needle.len();
    let mut i: usize = from;
    loop
        invariant
            limit <= hay.len(),
            needle.len() <= limit,
            last == limit - needle.len(),
            from <= i <= last,
            window == hay@.subrange(0, limit as int),
            first_match_from(window, needle@, from as int) == first_match_from(
                window,
                needle@,
                i as int,
            ),
        decreases last - i,
    {
        if occurs_at(hay, needle, i, limit) {
            return Some(i);
        }
        if i == last {
            assert(first_match_from(window, needle@, i + 1) is None);
            return None;
        }
        i += 1;
    }
}

/// The least index at or after `from` that holds a character other than
/// whitespace; the length of `s` when there is none.
pub open spec fn skip_whitespace(s: Seq<char>, from: int) -> int
    decreases s.len() - from,
{
    if from < 0 || from >= s.len() {
        s.len() as int
    } else if !is_whitespace(s[from]) {
        from
    } else {
        skip_whitespace(s, from + 1)
    }
}

/// The least index at or after `from` that holds whitespace; the length of `s`
/// when there is none.
pub open spec fn skip_word(s: Seq<char>, from: int) -> int
    decreases s.len() - from,
{
    if from < 0 || from >= s.len() {
        s.len() as int
    } else if is_whitespace(s[from]) {
        from
    } else {
        skip_word(s, from + 1)
    }
}

/// One past the last character of `s` that is not whitespace; zero when every
/// character is whitespace.
pub open spec fn content_end(s: Seq<char>) -> int
    decreases s.len(),
{
    if s.len() == 0 {
        0
    } else if !is_whitespace(s.last()) {
        s.len() as int
    } else {
        content_end(s.drop_last())
    }
}

/// `s` without its leading and trailing whitespace.
pub open spec fn trimmed(s: Seq<char>) -> Seq<char> {
    let start = skip_whitespace(s, 0);
    if start >= s.len() {
        Seq::empty()
    } else {
        s.subrange(start, content_end(s))
    }
}

/// Whether every character of `s` is whitespace (true of the empty text).
pub open spec fn is_blank(s: Seq<char>) -> bool {
    forall|i: int| 0 <= i < s.len() ==> is_whitespace(#[trigger] s[i])
}

/// What `skip_whitespace` returns: an index in range, with only whitespace
/// between `from` and it, and a character other than whitespace at it unless
/// it is the end.
pub proof fn lemma_skip_whitespace(s: Seq<char>, from: int)
    requires
        0 <= from <= s.len(),
    ensures
        from <= skip_whitespace(s, from) <= s.len(),
        forall|j: int| from <= j < skip_whitespace(s, from) ==> is_whitespace(#[trigger] s[j]),
        skip_whitespace(s, from) < s.len() ==> !is_whitespace(s[skip_whitespace(s, from)]),
    decreases s.len() - from,
{
    if from < s.len() && is_whitespace(s[from]) {
        lemma_skip_whitespace(s, from + 1);
    }
}

/// What `skip_word` returns: an index in range, with no whitespace between
/// `from` and it, and whitespace at it unless it is the end.
pub proof fn lemma_skip_word(s: Seq<char>, from: int)
    requires
        0 <= from <= s.len(),
    ensures
        from <= skip_word(s, from) <= s.len(),
        forall|j: int| from <= j < skip_word(s, from) ==> !is_whitespace(#[trigger] s[j]),
        skip_word(s, from) < s.len() ==> is_whitespace(s[skip_word(s, from)]),
    decreases s.len() - from,
{
    if from < s.len() && !is_whitespace(s[from]) {
        lemma_skip_word(s, from + 1);
    }
}

/// What `content_end` returns: only whitespace from it to the end, and a
/// character other than whitespace just before it unless it is zero.
pub proof fn lemma_content_end(s: Seq<char>)
    ensures
        0 <= content_end(s) <= s.len(),
        forall|j: int| content_end(s) <= j < s.len() ==> is_whitespace(#[trigger] s[j]),
        content_end(s) > 0 ==> !is_whitespace(s[content_end(s) - 1]),
    decreases s.len(),
{
    if s.len() > 0 && is_whitespace(s.last()) {
        let shorter = s.drop_last();
        lemma_content_end(shorter);
        assert forall|j: int| content_end(s) <= j < s.len() implies is_whitespace(
            #[trigger] s[j],
        ) by {
            if j < shorter.len() {
                assert(s[j] == shorter[j]);
            }
        }
    }
}

/// The index of the first character of `s` at or after `from` that is not
/// whitespace.
pub fn first_non_whitespace(s: &Vec<char>, from: usize) -> (r: usize)
    requires
        from <= s.len(),
    ensures
        r == skip_whitespace(s@, from as int),
{
    let mut i: usize = from;
    while i < s.len() && char_is_whitespace(s[i])
        invariant
            from <= i <= s.len(),
            skip_whitespace(s@, from as int) == skip_whitespace(s@, i as int),
        decreases s.len() - i,
    {
        i += 1;
    }
    i
}

/// The index of the first whitespace character of `s` at or after `from`.
pub fn first_whitespace(s: &Vec<char>, from: usize) -> (r: usize)
    requires
        from <= s.len(),
    ensures
        r == skip_word(s@, from as int),
{
    let mut i: usize = from;
    while i < s.len() && !char_is_whitespace(s[i])
        invariant
            from <= i <= s.len(),
            skip_word(s@, from as int) == skip_word(s@, i as int),
        decreases s.len() - i,
    {
        i += 1;
    }
    i
}

/// One past the index of the last character of `s` that is not whitespace.
pub fn last_content_end(s: &Vec<char>) -> (r: usize)
    ensures
        r == content_end(s@),
{
    let mut end: usize = s.len();
    assert(s@.take(end as int) =~= s@);
    while end > 0 && char_is_whitespace(s[end - 1])
        invariant
            end <= s.len(),
            content_end(s@) == content_end(s@.take(end as int)),
        decreases end,
    {
        assert(s@.take(end as int).drop_last() =~= s@.take(end - 1));
        end -= 1;
    }
    end
}

/// Removes leading and trailing whitespace.
pub fn trim(s: &str) -> (r: String)
    ensures
        r@ == trimmed(s@),
{
    let chars = to_chars(s);
    let start: usize = first_non_whitespace(&chars, 0);
    if start >= chars.len() {
        return String::new();
    }
    let end: usize = last_content_end(&chars);
    proof {
        lemma_skip_whitespace(chars@, 0);
        lemma_content_end(chars@);
    }
    s.substring_char(start, end).to_owned()
}

} // verus!
