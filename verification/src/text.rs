//! Text handling around the ledger: trimming, lower-casing, and the shape of
//! a decimal numeral.

use vstd::prelude::*;

verus! {

/// Whether Unicode classes `c` as white space: what `char::is_whitespace`
/// tells of it.
pub uninterp spec fn is_white_space(c: char) -> bool;

/// Calls `char::is_whitespace`. Trusted: the result is a function of the
/// character alone.
#[verifier::external_body]
fn char_is_whitespace(c: char) -> (b: bool)
    ensures
        b == is_white_space(c),
{
    c.is_whitespace()
}

/// Whether the characters of `s` from `from` up to `to` are all white space.
pub open spec fn blank_between(s: Seq<char>, from: int, to: int) -> bool {
    forall|i: int| from <= i < to ==> is_white_space(#[trigger] s[i])
}

/// The number of white-space characters that `s` begins with.
pub open spec fn trim_start(s: Seq<char>) -> int
    decreases s.len(),
{
    if s.len() == 0 || !is_white_space(s[0]) {
        0
    } else {
        1 + trim_start(s.drop_first())
    }
}

/// The length of `s` without the white-space characters it ends with.
pub open spec fn trim_end(s: Seq<char>) -> int
    decreases s.len(),
{
    if s.len() == 0 || !is_white_space(s.last()) {
        s.len() as int
    } else {
        trim_end(s.drop_last())
    }
}

/// A text without its leading and trailing white space.
pub open spec fn trimmed(text: Seq<char>) -> Seq<char> {
    if trim_start(text) < trim_end(text) {
        text.subrange(trim_start(text), trim_end(text))
    } else {
        Seq::empty()
    }
}

/// The leading white space of `s` ends at the first character that is none.
proof fn lemma_trim_start(s: Seq<char>, i: int)
    requires
        0 <= i <= s.len(),
        blank_between(s, 0, i),
        i < s.len() ==> !is_white_space(s[i]),
    ensures
        trim_start(s) == i,
    decreases i,
{
    if i > 0 {
        assert(is_white_space(s[0]));
        let rest = s.drop_first();
        assert forall|k: int| 0 <= k < i - 1 implies is_white_space(#[trigger] rest[k]) by {
            assert(rest[k] == s[k + 1]);
        }
        lemma_trim_start(rest, i - 1);
    }
}

/// The trailing white space of `s` begins after the last character that is
/// none.
proof fn lemma_trim_end(s: Seq<char>, j: int)
    requires
        0 <= j <= s.len(),
        blank_between(s, j, s.len() as int),
        j > 0 ==> !is_white_space(s[j - 1]),
    ensures
        trim_end(s) == j,
    decreases s.len() - j,
{
    if j < s.len() {
        assert(is_white_space(s.last()));
        let rest = s.drop_last();
        assert forall|k: int| j <= k < rest.len() implies is_white_space(#[trigger] rest[k]) by {
            assert(rest[k] == s[k]);
        }
        lemma_trim_end(rest, j);
    }
}

/// Cuts the leading and trailing white space off a text.
pub fn trim<'a>(text: &'a str) -> (r: &'a str)
    ensures
        r@ == trimmed(text@),
{
    let n: usize = text.unicode_len();
    let mut index: usize = 0;
    let mut found: bool = false;
    let mut start: usize = 0;
    let mut end: usize = 0;
    proof {
        vstd::string::axiom_spec_iter(text);
    }
    for c in it: text.chars()
        invariant
            it.seq() == text@,
            n == text@.len(),
            index == it.index(),
            !found ==> blank_between(text@, 0, index as int),
            found ==> start < end <= index && blank_between(text@, 0, start as int)
                && !is_white_space(text@[start as int]) && !is_white_space(text@[end - 1])
                && blank_between(text@, end as int, index as int),
    {
        if !char_is_whitespace(c) {
            if !found {
                start = index;
                found = true;
            }
            end = index + 1;
        }
        index = index + 1;
    }
    if found {
        proof {
            lemma_trim_start(text@, start as int);
            lemma_trim_end(text@, end as int);
        }
        text.substring_char(start, end)
    } else {
        proof {
            lemma_trim_start(text@, n as int);
            lemma_trim_end(text@, 0);
            assert(text@.subrange(0, 0) =~= Seq::<char>::empty());
        }
        text.substring_char(0, 0)
    }
}

/// The lower-case form of an ASCII capital; any other character itself.
pub open spec fn ascii_lower(c: char) -> char {
    if 'A' <= c <= 'Z' {
        ((c as u8) + 32) as char
    } else {
        c
    }
}

/// A text with each ASCII capital replaced by its lower-case form.
pub open spec fn lowered(text: Seq<char>) -> Seq<char> {
    text.map_values(|c: char| ascii_lower(c))
}

/// Calls `str::to_ascii_lowercase`. Trusted: `A` to `Z` become `a` to `z` and
/// every other character stays, as the standard library documents.
#[verifier::external_body]
pub(crate) fn str_to_ascii_lowercase(text: &str) -> (r: String)
    ensures
        r@ == lowered(text@),
{
    text.to_ascii_lowercase()
}

/// Whether `c` is one of the ten decimal digits.
pub open spec fn is_digit(c: char) -> bool {
    '0' <= c <= '9'
}

/// Whether the characters of `s` from `from` up to `to` are digits, and at
/// least one of them is there.
pub open spec fn digits_between(s: Seq<char>, from: int, to: int) -> bool {
    from < to && forall|i: int| from <= i < to ==> is_digit(#[trigger] s[i])
}

/// The length of the sign that `s` begins with: 1 for `+` or `-`, else 0.
pub open spec fn sign_len(s: Seq<char>) -> int {
    if s.len() > 0 && (s[0] == '+' || s[0] == '-') {
        1
    } else {
        0
    }
}

/// Whether `s` is a decimal numeral: an optional sign, one or more digits,
/// and optionally a single point followed by one or more digits.
pub open spec fn is_numeral(s: Seq<char>) -> bool {
    let start = sign_len(s);
    ||| digits_between(s, start, s.len() as int)
    ||| exists|p: int|
        start < p < s.len() - 1 && #[trigger] s[p] == '.' && digits_between(s, start, p)
            && digits_between(s, p + 1, s.len() as int)
}

/// Every character of a numeral is ASCII.
proof fn lemma_numeral_is_ascii(s: Seq<char>)
    requires
        is_numeral(s),
    ensures
        vstd::utf8::is_ascii_chars(s),
{
    let start = sign_len(s);
    assert forall|i: int| 0 <= i < s.len() implies '\0' <= #[trigger] s[i] <= '\u{7f}' by {
        if digits_between(s, start, s.len() as int) {
            if i >= start {
                assert(is_digit(s[i]));
            }
        } else {
            let p = choose|p: int|
                start < p < s.len() - 1 && #[trigger] s[p] == '.' && digits_between(s, start, p)
                    && digits_between(s, p + 1, s.len() as int);
            if start <= i < p {
                assert(is_digit(s[i]));
            } else if i > p {
                assert(is_digit(s[i]));
            }
        }
    }
}

/// Counts the digits of `text` from position `from` on.
fn skip_digits(text: &str, from: usize) -> (to: usize)
    requires
        text.is_ascii(),
        from <= text@.len(),
    ensures
        from <= to <= text@.len(),
        forall|i: int| from <= i < to ==> is_digit(#[trigger] text@[i]),
        to < text@.len() ==> !is_digit(text@[to as int]),
{
    let n: usize = text.unicode_len();
    let mut i: usize = from;
    while i < n
        invariant
            text.is_ascii(),
            n == text@.len(),
            from <= i <= n,
            forall|k: int| from <= k < i ==> is_digit(#[trigger] text@[k]),
        decreases n - i,
    {
        let b: u8 = text.get_ascii(i);
        if b < 48 || b > 57 {
            return i;
        }
        i = i + 1;
    }
    i
}

/// Tells whether `text` is a decimal numeral.
pub fn is_numeral_text(text: &str) -> (b: bool)
    ensures
        b == is_numeral(text@),
{
    if !text.is_ascii() {
        proof {
            if is_numeral(text@) {
                lemma_numeral_is_ascii(text@);
            }
        }
        return false;
    }
    let n: usize = text.unicode_len();
    let mut start: usize = 0;
    if n > 0 {
        let first: u8 = text.get_ascii(0);
        if first == 43 || first == 45 {
            start = 1;
        }
    }
    assert(start == sign_len(text@));
    let point: usize = skip_digits(text, start);
    if point == start {
        return false;
    }
    if point == n {
        return true;
    }
    if text.get_ascii(point) != 46 {
        assert(!is_digit(text@[point as int]));
        return false;
    }
    let end: usize = skip_digits(text, point + 1);
    assert(!is_digit(text@[point as int]));
    if end == n && end > point + 1 {
        assert(digits_between(text@, point + 1, n as int));
        true
    } else {
        false
    }
}

} // verus!
