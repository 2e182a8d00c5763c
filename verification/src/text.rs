//! Character-level text handling: white space, trimming, case folding and
//! word boundaries, over sequences of characters.

use vstd::prelude::*;

verus! {

/// Whether `c` has the Unicode property `White_Space`.
pub open spec fn is_whitespace(c: char) -> bool {
    let u = c as u32;
    ||| 0x09 <= u <= 0x0D
    ||| u == 0x20
    ||| u == 0x85
    ||| u == 0xA0
    ||| u == 0x1680
    ||| 0x2000 <= u <= 0x200A
    ||| u == 0x2028
    ||| u == 0x2029
    ||| u == 0x202F
    ||| u == 0x205F
    ||| u == 0x3000
}

/// `c` with the letters `A` to `Z` replaced by `a` to `z`.
pub open spec fn ascii_lower(c: char) -> char {
    if 'A' <= c <= 'Z' {
        ((c as u8) + 32) as char
    } else {
        c
    }
}

/// Equality of two texts up to the case of ASCII letters.
pub open spec fn eq_ignore_ascii_case(a: Seq<char>, b: Seq<char>) -> bool {
    &&& a.len() == b.len()
    &&& forall|i: int| 0 <= i < a.len() ==> ascii_lower(#[trigger] a[i]) == ascii_lower(b[i])
}

/// The first position at or after `from` that holds no white space, or the
/// length of `s` when only white space follows.
pub open spec fn skip_spaces(s: Seq<char>, from: int) -> int
    decreases s.len() - from,
{
    if 0 <= from < s.len() && is_whitespace(s[from]) {
        skip_spaces(s, from + 1)
    } else {
        from
    }
}

/// The first position at or after `from` that holds white space, or the
/// length of `s` when none follows.
pub open spec fn skip_word(s: Seq<char>, from: int) -> int
    decreases s.len() - from,
{
    if 0 <= from < s.len() && !is_whitespace(s[from]) {
        skip_word(s, from + 1)
    } else {
        from
    }
}

/// The least `end` at or below `to` such that only white space stands
/// between `end` and `to`.
pub open spec fn trim_back(s: Seq<char>, to: int) -> int
    decreases to,
{
    if 0 < to <= s.len() && is_whitespace(s[to - 1]) {
        trim_back(s, to - 1)
    } else {
        to
    }
}

/// `s` without the white space at its two ends.
pub open spec fn trimmed(s: Seq<char>) -> Seq<char> {
    let start = skip_spaces(s, 0);
    if start >= s.len() {
        Seq::empty()
    } else {
        s.subrange(start, trim_back(s, s.len() as int))
    }
}

/// Between `from` and where `skip_spaces` ends stands white space only, and
/// what stands at that end, if anything, is none.
pub proof fn lemma_skip_spaces_bounds(s: Seq<char>, from: int)
    requires
        0 <= from <= s.len(),
    ensures
        from <= skip_spaces(s, from) <= s.len(),
        forall|i: int| from <= i < skip_spaces(s, from) ==> is_whitespace(#[trigger] s[i]),
        skip_spaces(s, from) < s.len() ==> !is_whitespace(s[skip_spaces(s, from)]),
    decreases s.len() - from,
{
    if from < s.len() && is_whitespace(s[from]) {
        lemma_skip_spaces_bounds(s, from + 1);
    }
}

/// Between where `trim_back` ends and `to` stands white space only, and what
/// stands before that end, if anything, is none.
pub proof fn lemma_trim_back_bounds(s: Seq<char>, to: int)
    requires
        0 <= to <= s.len(),
    ensures
        0 <= trim_back(s, to) <= to,
        forall|i: int| trim_back(s, to) <= i < to ==> is_whitespace(#[trigger] s[i]),
        trim_back(s, to) > 0 ==> !is_whitespace(s[trim_back(s, to) - 1]),
    decreases to,
{
    if 0 < to && is_whitespace(s[to - 1]) {
        lemma_trim_back_bounds(s, to - 1);
    }
}

/// Trimming removes white space and nothing else: a text that is all white
/// space trims to the empty text; any other text is white space, then the
/// trimmed text, then white space, and the trimmed text begins and ends with
/// a character that is no white space.
pub proof fn lemma_trimmed_ends(s: Seq<char>)
    ensures
        skip_spaces(s, 0) < s.len() ==> {
            let start = skip_spaces(s, 0);
            let end = trim_back(s, s.len() as int);
            &&& 0 <= start < end <= s.len()
            &&& trimmed(s) == s.subrange(start, end)
            &&& !is_whitespace(trimmed(s).first())
            &&& !is_whitespace(trimmed(s).last())
            &&& forall|i: int| 0 <= i < start ==> is_whitespace(#[trigger] s[i])
            &&& forall|i: int| end <= i < s.len() ==> is_whitespace(#[trigger] s[i])
        },
        skip_spaces(s, 0) >= s.len() ==> {
            &&& trimmed(s).len() == 0
            &&& forall|i: int| 0 <= i < s.len() ==> is_whitespace(#[trigger] s[i])
        },
{
    lemma_skip_spaces_bounds(s, 0);
    lemma_trim_back_bounds(s, s.len() as int);
}

/// The characters of `s`, in order.
pub fn chars_of(s: &str) -> (out: Vec<char>)
    ensures
        out@ == s@,
{
    let n: usize = s.unicode_len();
    let mut out: Vec<char> = Vec::with_capacity(n);
    let mut i: usize = 0;
    while i < n
        invariant
            n == s@.len(),
            i <= n,
            out@ == s@.subrange(0, i as int),
        decreases n - i,
    {
        out.push(s.get_char(i));
        i += 1;
        assert(out@ =~= s@.subrange(0, i as int));
    }
    assert(out@ =~= s@);
    out
}

pub fn is_whitespace_char(c: char) -> (r: bool)
    ensures
        r == is_whitespace(c),
{
    let u: u32 = c as u32;
    (0x09 <= u && u <= 0x0D) || u == 0x20 || u == 0x85 || u == 0xA0 || u == 0x1680 || (0x2000 <= u
        && u <= 0x200A) || u == 0x2028 || u == 0x2029 || u == 0x202F || u == 0x205F || u
        == 0x3000
}

pub fn ascii_lower_char(c: char) -> (r: char)
    ensures
        r == ascii_lower(c),
{
    if 'A' <= c && c <= 'Z' {
        ((c as u8) + 32) as char
    } else {
        c
    }
}

/// Scans white space from `from` onwards.
pub fn scan_spaces(s: &Vec<char>, from: usize) -> (end: usize)
    requires
        from <= s.len(),
    ensures
        end == skip_spaces(s@, from as int),
        from <= end <= s.len(),
{
    let mut i: usize = from;
    while i < s.len() && is_whitespace_char(s[i])
        invariant
            from <= i <= s.len(),
            skip_spaces(s@, from as int) == skip_spaces(s@, i as int),
        decreases s.len() - i,
    {
        i += 1;
    }
    i
}

/// Scans one word, a run without white space, from `from` onwards.
pub fn scan_word(s: &Vec<char>, from: usize) -> (end: usize)
    requires
        from <= s.len(),
    ensures
        end == skip_word(s@, from as int),
        from <= end <= s.len(),
{
    let mut i: usize = from;
    while i < s.len() && !is_whitespace_char(s[i])
        invariant
            from <= i <= s.len(),
            skip_word(s@, from as int) == skip_word(s@, i as int),
        decreases s.len() - i,
    {
        i += 1;
    }
    i
}

/// Scans white space backwards from `to`.
pub fn scan_back(s: &Vec<char>, to: usize) -> (end: usize)
    requires
        to <= s.len(),
    ensures
        end == trim_back(s@, to as int),
        end <= to,
{
    let mut i: usize = to;
    while i > 0 && is_whitespace_char(s[i - 1])
        invariant
            i <= to <= s.len(),
            trim_back(s@, to as int) == trim_back(s@, i as int),
        decreases i,
    {
        i -= 1;
    }
    i
}

/// Whether `text`, with the white space at its ends removed, equals `name` up
/// to the case of ASCII letters.
pub fn trimmed_eq_ignore_case(text: &Vec<char>, name: &Vec<char>) -> (r: bool)
    ensures
        r == eq_ignore_ascii_case(trimmed(text@), name@),
{
    let start: usize = scan_spaces(text, 0);
    if start >= text.len() {
        return name.len() == 0;
    }
    let end: usize = scan_back(text, text.len());
    proof {
        lemma_trimmed_ends(text@);
    }
    if end - start != name.len() {
        return false;
    }
    let ghost t = trimmed(text@);
    let mut i: usize = 0;
    while i < name.len()
        invariant
            start < end <= text.len(),
            end - start == name.len(),
            i <= name.len(),
            t == trimmed(text@),
            t == text@.subrange(start as int, end as int),
            forall|j: int| 0 <= j < i ==> ascii_lower(#[trigger] t[j]) == ascii_lower(name@[j]),
        decreases name.len() - i,
    {
        if ascii_lower_char(text[start + i]) != ascii_lower_char(name[i]) {
            assert(t[i as int] == text@[start + i]);
            return false;
        }
        assert(t[i as int] == text@[start + i]);
        i += 1;
    }
    true
}

/// The characters of `s` from `from` up to `to`.
pub fn slice_of(s: &Vec<char>, from: usize, to: usize) -> (out: Vec<char>)
    requires
        from <= to <= s.len(),
    ensures
        out@ == s@.subrange(from as int, to as int),
{
    let mut out: Vec<char> = Vec::with_capacity(to - from);
    let mut i: usize = from;
    while i < to
        invariant
            from <= i <= to <= s.len(),
            out@ == s@.subrange(from as int, i as int),
        decreases to - i,
    {
        out.push(s[i]);
        i += 1;
        assert(out@ =~= s@.subrange(from as int, i as int));
    }
    out
}

/// Whether `text`, with the white space at its ends removed, is exactly
/// `name`.
pub fn trimmed_eq(text: &Vec<char>, name: &Vec<char>) -> (r: bool)
    ensures
        r == (trimmed(text@) == name@),
{
    let start: usize = scan_spaces(text, 0);
    if start >= text.len() {
        assert(name.len() == 0 ==> name@ =~= Seq::<char>::empty());
        return name.len() == 0;
    }
    let end: usize = scan_back(text, text.len());
    proof {
        lemma_trimmed_ends(text@);
    }
    if end - start != name.len() {
        return false;
    }
    let ghost t = trimmed(text@);
    let mut i: usize = 0;
    while i < name.len()
        invariant
            start < end <= text.len(),
            end - start == name.len(),
            i <= name.len(),
            t == trimmed(text@),
            t == text@.subrange(start as int, end as int),
            forall|j: int| 0 <= j < i ==> #[trigger] t[j] == name@[j],
        decreases name.len() - i,
    {
        if text[start + i] != name[i] {
            assert(t[i as int] == text@[start + i]);
            return false;
        }
        assert(t[i as int] == text@[start + i]);
        i += 1;
    }
    assert(t =~= name@);
    true
}

} // verus!
