//! Character-level helpers shared by the string-building modules.

use vstd::prelude::*;

verus! {

broadcast use vstd::string::group_string_axioms;

/// The characters of `s`, in order.
pub fn chars_of(s: &str) -> (chars: Vec<char>)
    ensures
        chars@ == s@,
{
    let mut out: Vec<char> = Vec::new();
    for c in it: s.chars()
        invariant
            it.seq() == s@,
            out@ == s@.take(it.index() as int),
    {
        out.push(c);
    }
    assert(s@.take(s@.len() as int) == s@);
    out
}

/// Appends one character to `s`.
///
/// Trusted: calls `String::push`, which appends `c` at the end of the string.
#[verifier::external_body]
fn push_char(s: &mut String, c: char)
    ensures
        final(s)@ == old(s)@.push(c),
{
    s.push(c);
}

/// The string made of `chars[from..to]`.
pub fn string_from_chars(chars: &Vec<char>, from: usize, to: usize) -> (s: String)
    requires
        from <= to <= chars@.len(),
    ensures
        s@ == chars@.subrange(from as int, to as int),
{
    let mut out = String::new();
    let mut i: usize = from;
    while i < to
        invariant
            from <= i <= to <= chars@.len(),
            out@ == chars@.subrange(from as int, i as int),
        decreases to - i,
    {
        push_char(&mut out, chars[i]);
        assert(chars@.subrange(from as int, i + 1) == chars@.subrange(from as int, i as int).push(chars@[i as int]));
        i = i + 1;
    }
    out
}

/// Whether two strings hold the same characters.
pub fn str_equal(a: &str, b: &str) -> (same: bool)
    ensures
        same == (a@ == b@),
{
    a.to_owned() == b.to_owned()
}

/// `suffix` is a suffix of `s`.
pub open spec fn has_suffix(s: Seq<char>, suffix: Seq<char>) -> bool {
    suffix.len() <= s.len() && s.subrange(s.len() - suffix.len(), s.len() as int) == suffix
}

/// `needle` occurs somewhere in `s`.
pub open spec fn contains_seq(s: Seq<char>, needle: Seq<char>) -> bool {
    exists|i: int| 0 <= i <= s.len() - needle.len() && #[trigger] s.subrange(i, i + needle.len()) == needle
}

fn chars_match_at(s: &Vec<char>, at: usize, pattern: &Vec<char>) -> (same: bool)
    requires
        at + pattern@.len() <= s@.len(),
    ensures
        same == (s@.subrange(at as int, at + pattern@.len()) == pattern@),
{
    let mut i: usize = 0;
    let _ = s.len();
    while i < pattern.len()
        invariant
            i <= pattern@.len(),
            at + pattern@.len() <= s@.len(),
            s@.len() <= usize::MAX,
            forall|j: int| 0 <= j < i ==> s@[at + j] == pattern@[j],
        decreases pattern@.len() - i,
    {
        if s[at + i] != pattern[i] {
            assert(s@.subrange(at as int, at + pattern@.len())[i as int] != pattern@[i as int]);
            return false;
        }
        i = i + 1;
    }
    assert(s@.subrange(at as int, at + pattern@.len()) =~= pattern@);
    true
}

/// Whether `s` ends with `suffix`.
pub fn ends_with_str(s: &str, suffix: &str) -> (ends: bool)
    ensures
        ends == has_suffix(s@, suffix@),
{
    let sc = chars_of(s);
    let pc = chars_of(suffix);
    if pc.len() > sc.len() {
        return false;
    }
    chars_match_at(&sc, sc.len() - pc.len(), &pc)
}

/// Whether `needle` occurs in `s`.
pub fn contains_str(s: &str, needle: &str) -> (found: bool)
    ensures
        found == contains_seq(s@, needle@),
{
    let sc = chars_of(s);
    let nc = chars_of(needle);
    if nc.len() > sc.len() {
        return false;
    }
    if nc.len() == 0 {
        assert(s@.subrange(0int, 0int + needle@.len()) =~= needle@);
        return true;
    }
    let mut i: usize = 0;
    while i <= sc.len() - nc.len()
        invariant
            0 < nc@.len() <= sc@.len() <= usize::MAX,
            i <= sc@.len() - nc@.len() + 1,
            sc@ == s@,
            nc@ == needle@,
            forall|k: int| 0 <= k < i ==> #[trigger] s@.subrange(k, k + needle@.len()) != needle@,
        decreases sc@.len() - nc@.len() + 1 - i,
    {
        if chars_match_at(&sc, i, &nc) {
            assert(s@.subrange(i as int, i + needle@.len()) == needle@);
            return true;
        }
        i = i + 1;
    }
    false
}

/// `s` without its last `n` characters.
pub fn drop_last_chars(s: &str, n: usize) -> (out: String)
    requires
        n <= s@.len(),
    ensures
        out@ == s@.subrange(0, s@.len() - n),
{
    let sc = chars_of(s);
    string_from_chars(&sc, 0, sc.len() - n)
}

/// The characters with the Unicode White_Space property, which
/// `char::is_whitespace` recognises.
pub open spec fn is_white_space(c: char) -> bool {
    let v = c as u32;
    ||| (9 <= v && v <= 13)
    ||| v == 0x20
    ||| v == 0x85
    ||| v == 0xA0
    ||| v == 0x1680
    ||| (0x2000 <= v && v <= 0x200A)
    ||| v == 0x2028
    ||| v == 0x2029
    ||| v == 0x202F
    ||| v == 0x205F
    ||| v == 0x3000
}

pub fn is_white_space_exec(c: char) -> (white: bool)
    ensures
        white == is_white_space(c),
{
    let v = c as u32;
    (9 <= v && v <= 13) || v == 0x20 || v == 0x85 || v == 0xA0 || v == 0x1680 || (0x2000 <= v && v
        <= 0x200A) || v == 0x2028 || v == 0x2029 || v == 0x202F || v == 0x205F || v == 0x3000
}

pub open spec fn trim_start_white(s: Seq<char>) -> Seq<char>
    decreases s.len(),
{
    if s.len() > 0 && is_white_space(s[0]) {
        trim_start_white(s.drop_first())
    } else {
        s
    }
}

pub open spec fn trim_end_white(s: Seq<char>) -> Seq<char>
    decreases s.len(),
{
    if s.len() > 0 && is_white_space(s.last()) {
        trim_end_white(s.drop_last())
    } else {
        s
    }
}

/// `s` without leading and trailing white space, as `str::trim` gives it.
pub open spec fn trimmed(s: Seq<char>) -> Seq<char> {
    trim_end_white(trim_start_white(s))
}

/// The bounds `[start, end)` of `chars` without leading and trailing white space.
pub fn trim_bounds(chars: &Vec<char>) -> (bounds: (usize, usize))
    ensures
        bounds.0 <= bounds.1 <= chars@.len(),
        chars@.subrange(bounds.0 as int, bounds.1 as int) == trimmed(chars@),
{
    let n = chars.len();
    let mut start: usize = 0;
    assert(chars@.subrange(0, n as int) == chars@);
    while start < n && is_white_space_exec(chars[start])
        invariant
            start <= n == chars@.len(),
            trim_start_white(chars@) == trim_start_white(chars@.subrange(start as int, n as int)),
        decreases n - start,
    {
        assert(chars@.subrange(start as int, n as int).drop_first() == chars@.subrange(start + 1, n as int));
        start = start + 1;
    }
    let ghost lead = chars@.subrange(start as int, n as int);
    assert(trim_start_white(chars@) == lead);
    let mut end: usize = n;
    while end > start && is_white_space_exec(chars[end - 1])
        invariant
            start <= end <= n == chars@.len(),
            lead == chars@.subrange(start as int, n as int),
            trim_end_white(lead) == trim_end_white(chars@.subrange(start as int, end as int)),
        decreases end - start,
    {
        assert(chars@.subrange(start as int, end as int).drop_last() == chars@.subrange(start as int, end - 1));
        end = end - 1;
    }
    (start, end)
}

/// `s` without leading and trailing white space.
pub fn trim_white(s: &str) -> (t: String)
    ensures
        t@ == trimmed(s@),
{
    let chars = chars_of(s);
    let (start, end) = trim_bounds(&chars);
    string_from_chars(&chars, start, end)
}

proof fn lemma_trim_end_keeps_prefix(s: Seq<char>)
    ensures
        trim_end_white(s).len() <= s.len(),
        forall|i: int| 0 <= i < trim_end_white(s).len() ==> #[trigger] trim_end_white(s)[i] == s[i],
        trim_end_white(s).len() > 0 ==> !is_white_space(trim_end_white(s).last()),
    decreases s.len(),
{
    if s.len() > 0 && is_white_space(s.last()) {
        lemma_trim_end_keeps_prefix(s.drop_last());
    }
}

proof fn lemma_trim_start_result(s: Seq<char>)
    ensures
        trim_start_white(s).len() > 0 ==> !is_white_space(trim_start_white(s)[0]),
    decreases s.len(),
{
    if s.len() > 0 && is_white_space(s[0]) {
        lemma_trim_start_result(s.drop_first());
    }
}

/// Trimming a trimmed string changes nothing.
pub proof fn lemma_trimmed_idempotent(s: Seq<char>)
    ensures
        trimmed(trimmed(s)) == trimmed(s),
{
    let a = trim_start_white(s);
    let t = trim_end_white(a);
    lemma_trim_start_result(s);
    lemma_trim_end_keeps_prefix(a);
    if t.len() > 0 {
        assert(t[0] == a[0]);
        assert(trim_start_white(t) == t);
        assert(trim_end_white(t) == t);
    } else {
        assert(trim_start_white(t) == t);
        assert(trim_end_white(t) == t);
    }
}

} // verus!
