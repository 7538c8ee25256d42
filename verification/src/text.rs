//! Whitespace trimming over character sequences.

use vstd::prelude::*;
use vstd::string::*;

verus! {

/// Whitespace as the trimming functions understand it: the Unicode
/// White_Space set.
pub open spec fn is_space_char(c: char) -> bool {
    c == ' ' || c == '\t' || c == '\n' || c == '\r' || c == '\u{000B}' || c == '\u{000C}' || c
        == '\u{0085}' || c == '\u{00A0}' || c == '\u{1680}' || (0x2000 <= c as u32 && c as u32
        <= 0x200A) || c == '\u{2028}' || c == '\u{2029}' || c == '\u{202F}' || c == '\u{205F}' || c
        == '\u{3000}'
}

fn is_space(c: char) -> (r: bool)
    ensures
        r == is_space_char(c),
{
    let u = c as u32;
    u == 0x20 || u == 0x09 || u == 0x0A || u == 0x0D || u == 0x0B || u == 0x0C || u == 0x85 || u
        == 0xA0 || u == 0x1680 || (0x2000 <= u && u <= 0x200A) || u == 0x2028 || u == 0x2029 || u
        == 0x202F || u == 0x205F || u == 0x3000
}

/// The sequence with its leading whitespace dropped.
pub open spec fn trim_start_spec(s: Seq<char>) -> Seq<char>
    decreases s.len(),
{
    if s.len() == 0 {
        s
    } else if is_space_char(s[0]) {
        trim_start_spec(s.drop_first())
    } else {
        s
    }
}

/// The sequence with its trailing whitespace dropped.
pub open spec fn trim_end_spec(s: Seq<char>) -> Seq<char>
    decreases s.len(),
{
    if s.len() == 0 {
        s
    } else if is_space_char(s.last()) {
        trim_end_spec(s.drop_last())
    } else {
        s
    }
}

/// The sequence with leading and trailing whitespace dropped.
pub open spec fn trim_spec(s: Seq<char>) -> Seq<char> {
    trim_end_spec(trim_start_spec(s))
}

proof fn lemma_trim_start_prefix(s: Seq<char>, lo: int)
    requires
        0 <= lo <= s.len(),
        forall|j: int| 0 <= j < lo ==> is_space_char(s[j]),
        lo == s.len() || !is_space_char(s[lo]),
    ensures
        trim_start_spec(s) == s.skip(lo),
    decreases lo,
{
    if lo == 0 {
        assert(s.skip(0) =~= s);
    } else {
        lemma_trim_start_prefix(s.drop_first(), lo - 1);
        assert(s.drop_first().skip(lo - 1) =~= s.skip(lo));
    }
}

proof fn lemma_trim_end_suffix(s: Seq<char>, hi: int)
    requires
        0 <= hi <= s.len(),
        forall|j: int| hi <= j < s.len() ==> is_space_char(s[j]),
        hi == 0 || !is_space_char(s[hi - 1]),
    ensures
        trim_end_spec(s) == s.take(hi),
    decreases s.len() - hi,
{
    if hi == s.len() {
        assert(s.take(hi) =~= s);
    } else {
        assert(is_space_char(s.last()));
        lemma_trim_end_suffix(s.drop_last(), hi);
        assert(s.drop_last().take(hi) =~= s.take(hi));
    }
}

/// The slice with leading and trailing whitespace removed.
pub fn trim<'a>(s: &'a str) -> (r: &'a str)
    ensures
        r@ == trim_spec(s@),
{
    let len = s.unicode_len();
    let mut lo: usize = 0;
    while lo < len && is_space(s.get_char(lo))
        invariant
            0 <= lo <= len,
            len == s@.len(),
            forall|j: int| 0 <= j < lo ==> is_space_char(s@[j]),
        decreases len - lo,
    {
        lo += 1;
    }
    let mut hi: usize = len;
    while hi > lo && is_space(s.get_char(hi - 1))
        invariant
            lo <= hi <= len,
            len == s@.len(),
            forall|j: int| hi <= j < len ==> is_space_char(s@[j]),
        decreases hi,
    {
        hi -= 1;
    }
    let r = s.substring_char(lo, hi);
    proof {
        lemma_trim_start_prefix(s@, lo as int);
        let rest = s@.skip(lo as int);
        assert(forall|j: int| hi - lo <= j < rest.len() ==> is_space_char(#[trigger] rest[j]));
        if hi > lo {
            assert(rest[hi - lo - 1] == s@[hi - 1]);
        }
        lemma_trim_end_suffix(rest, hi - lo);
        assert(rest.take(hi - lo) =~= s@.subrange(lo as int, hi as int));
    }
    r
}

/// The text of an optional value, or its absence.
pub open spec fn opt_text(o: Option<String>) -> Option<Seq<char>> {
    match o {
        Some(s) => Some(s@),
        None => None,
    }
}

/// Copy of an optional text value.
pub fn clone_opt_string(o: &Option<String>) -> (r: Option<String>)
    ensures
        r == *o,
{
    match o {
        Some(s) => Some(s.clone()),
        None => None,
    }
}

/// Trimmed text, or nothing when only whitespace is left.
pub fn non_empty_trimmed<'a>(value: &'a str) -> (r: Option<&'a str>)
    ensures
        (r is Some) == (trim_spec(value@).len() > 0),
        r matches Some(t) ==> t@ == trim_spec(value@),
{
    let trimmed = trim(value);
    if trimmed.is_empty() {
        None
    } else {
        Some(trimmed)
    }
}

} // verus!
