//! Character classes, character sequences, trimming and decimal numbers.

use vstd::prelude::*;
use vstd::std_specs::iter::IteratorSpec;

verus! {

broadcast use vstd::string::group_string_axioms;

/// Whether `c` has the Unicode `White_Space` property, as `char::is_whitespace` says.
/// The regex class `\s` and `str::trim` are both defined by this property.
pub uninterp spec fn white_space(c: char) -> bool;

/// Whether `c` is a Unicode word character (the class behind the regex `\w` and `\b`).
pub uninterp spec fn word_char(c: char) -> bool;

/// Whether the regex `pattern` matches somewhere in `haystack` (false for an invalid pattern).
pub uninterp spec fn regex_is_match(pattern: Seq<char>, haystack: Seq<char>) -> bool;

pub open spec fn ascii_char(c: char) -> bool {
    (c as u32) < 128
}

pub open spec fn ascii_digit(c: char) -> bool {
    '0' <= c && c <= '9'
}

pub open spec fn ascii_word(c: char) -> bool {
    ||| ascii_digit(c)
    ||| ('a' <= c && c <= 'z')
    ||| ('A' <= c && c <= 'Z')
    ||| c == '_'
}

pub open spec fn ascii_white_space(c: char) -> bool {
    c == ' ' || ('\t' <= c && c <= '\r')
}

/// The one-character pattern for the regex class `\d` (Unicode `Decimal_Number`).
pub open spec fn digit_class_pattern() -> Seq<char> {
    "\\A\\d\\z"@
}

/// Whether `c` belongs to the regex class `\d`.
pub open spec fn decimal_digit(c: char) -> bool {
    regex_is_match(digit_class_pattern(), seq![c])
}

/// `char::is_whitespace`: true iff `c` has the Unicode `White_Space` property; on ASCII
/// this is the space and the five controls from tab to carriage return.
#[verifier::external_body]
pub(crate) fn char_is_white_space(c: char) -> (r: bool)
    ensures
        r == white_space(c),
        ascii_char(c) ==> (r <==> ascii_white_space(c)),
{
    c.is_whitespace()
}

/// `regex_syntax::is_word_character`: true iff `c` is a Unicode word character; on ASCII
/// these are exactly the letters, the digits and `_`.
#[verifier::external_body]
pub(crate) fn char_is_word(c: char) -> (r: bool)
    ensures
        r == word_char(c),
        ascii_char(c) ==> (r <==> ascii_word(c)),
{
    regex_syntax::is_word_character(c)
}

/// `regex::Regex::new` then `Regex::is_match` on the one-character text `c`: whether
/// `pattern` matches in it; an invalid pattern gives false. The class `\d` holds, among
/// ASCII characters, exactly the ten digits.
#[verifier::external_body]
pub(crate) fn regex_matches_char(pattern: &str, c: char) -> (r: bool)
    ensures
        r == regex_is_match(pattern@, seq![c]),
        pattern@ == digit_class_pattern() && ascii_char(c) ==> (r <==> ascii_digit(c)),
{
    let mut buf = [0u8; 4];
    let text: &str = c.encode_utf8(&mut buf);
    match regex::Regex::new(pattern) {
        Ok(re) => re.is_match(text),
        Err(_) => false,
    }
}

/// Whether `c` belongs to the regex class `\d`.
pub fn is_decimal_digit(c: char) -> (r: bool)
    ensures
        r == decimal_digit(c),
{
    regex_matches_char("\\A\\d\\z", c)
}

/// The characters of `s`, in order.
pub fn chars_of(s: &str) -> (v: Vec<char>)
    ensures
        v@ == s@,
{
    let mut v: Vec<char> = Vec::new();
    for c in it: s.chars()
        invariant
            it.seq() == s@,
            v@ == s@.take(it.index() as int),
    {
        v.push(c);
    }
    assert(v@ =~= s@);
    v
}

/// `s` without its leading white space.
pub open spec fn trim_start(s: Seq<char>) -> Seq<char>
    decreases s.len(),
{
    if s.len() > 0 && white_space(s[0]) {
        trim_start(s.drop_first())
    } else {
        s
    }
}

/// `s` without its trailing white space.
pub open spec fn trim_end(s: Seq<char>) -> Seq<char>
    decreases s.len(),
{
    if s.len() > 0 && white_space(s.last()) {
        trim_end(s.drop_last())
    } else {
        s
    }
}

/// `str::trim`: `s` without leading and trailing white space.
pub open spec fn trim(s: Seq<char>) -> Seq<char> {
    trim_end(trim_start(s))
}

pub proof fn lemma_trim_start_suffix(s: Seq<char>)
    ensures
        trim_start(s).len() <= s.len(),
        trim_start(s) == s.subrange(s.len() - trim_start(s).len(), s.len() as int),
    decreases s.len(),
{
    if s.len() > 0 && white_space(s[0]) {
        lemma_trim_start_suffix(s.drop_first());
        let t = trim_start(s.drop_first());
        assert(s.drop_first().subrange(s.drop_first().len() - t.len(), s.drop_first().len() as int)
            =~= s.subrange(s.len() - t.len(), s.len() as int));
    } else {
        assert(s.subrange(0, s.len() as int) =~= s);
    }
}

pub proof fn lemma_trim_end_prefix(s: Seq<char>)
    ensures
        trim_end(s).len() <= s.len(),
        trim_end(s) == s.take(trim_end(s).len() as int),
    decreases s.len(),
{
    if s.len() > 0 && white_space(s.last()) {
        lemma_trim_end_prefix(s.drop_last());
        let t = trim_end(s.drop_last());
        assert(s.drop_last().take(t.len() as int) =~= s.take(t.len() as int));
    } else {
        assert(s.take(s.len() as int) =~= s);
    }
}

/// Every character of `trim(s)` is a character of `s`.
pub proof fn lemma_trim_chars(s: Seq<char>)
    ensures
        forall|i: int| 0 <= i < trim(s).len() ==> s.contains(#[trigger] trim(s)[i]),
{
    lemma_trim_start_suffix(s);
    let a = trim_start(s);
    lemma_trim_end_prefix(a);
    let off = s.len() - a.len();
    assert forall|i: int| 0 <= i < trim(s).len() implies s.contains(#[trigger] trim(s)[i]) by {
        assert(trim(s)[i] == a[i]);
        assert(a[i] == s[off + i]);
    }
}

/// The bounds `(a, b)` of `trim` of the part `lo..hi` of `v`.
pub fn trim_bounds(v: &Vec<char>, lo: usize, hi: usize) -> (r: (usize, usize))
    requires
        lo <= hi <= v@.len(),
    ensures
        lo <= r.0 <= r.1 <= hi,
        v@.subrange(r.0 as int, r.1 as int) == trim(v@.subrange(lo as int, hi as int)),
{
    let mut a = lo;
    while a < hi && char_is_white_space(v[a])
        invariant
            lo <= a <= hi <= v@.len(),
            trim_start(v@.subrange(lo as int, hi as int)) == trim_start(v@.subrange(a as int, hi as int)),
        decreases hi - a,
    {
        assert(v@.subrange(a as int, hi as int).drop_first() =~= v@.subrange(a + 1, hi as int));
        a = a + 1;
    }
    let mut b = hi;
    while b > a && char_is_white_space(v[b - 1])
        invariant
            lo <= a <= b <= hi <= v@.len(),
            trim(v@.subrange(lo as int, hi as int)) == trim_end(v@.subrange(a as int, b as int)),
        decreases b - a,
    {
        assert(v@.subrange(a as int, b as int).drop_last() =~= v@.subrange(a as int, b - 1));
        b = b - 1;
    }
    (a, b)
}

/// The value of a sequence of ASCII digits.
pub open spec fn digits_value(s: Seq<char>) -> nat
    decreases s.len(),
{
    if s.len() == 0 {
        0
    } else {
        digits_value(s.drop_last()) * 10 + ((s.last() as u32) - ('0' as u32)) as nat
    }
}

pub open spec fn all_ascii_digits(s: Seq<char>) -> bool {
    forall|i: int| 0 <= i < s.len() ==> ascii_digit(#[trigger] s[i])
}

/// The digits part of an unsigned number's text: `s` without one leading `+`.
pub open spec fn unsigned_digits(s: Seq<char>) -> Seq<char> {
    if s.len() > 0 && s[0] == '+' {
        s.drop_first()
    } else {
        s
    }
}

/// What `str::parse` gives for an unsigned integer type whose largest value is `max`:
/// an optional `+` then one or more ASCII digits, with a value of at most `max`.
pub open spec fn parse_unsigned(s: Seq<char>, max: nat) -> Option<nat> {
    let d = unsigned_digits(s);
    if d.len() > 0 && all_ascii_digits(d) && digits_value(d) <= max {
        Some(digits_value(d))
    } else {
        None
    }
}

proof fn lemma_digits_value_monotone(s: Seq<char>, j: int)
    requires
        0 <= j <= s.len(),
        all_ascii_digits(s),
    ensures
        digits_value(s.take(j)) <= digits_value(s),
    decreases s.len() - j,
{
    if j < s.len() {
        lemma_digits_value_monotone(s, j + 1);
        assert(s.take(j + 1).drop_last() =~= s.take(j));
        assert(ascii_digit(s[j]));
    } else {
        assert(s.take(j) =~= s);
    }
}

/// Parses the part `lo..hi` of `v` as `str::parse` does for an unsigned integer type
/// whose largest value is `max`.
pub fn parse_unsigned_in(v: &Vec<char>, lo: usize, hi: usize, max: u64) -> (r: Option<u64>)
    requires
        lo <= hi <= v@.len(),
        max <= u32::MAX,
    ensures
        match parse_unsigned(v@.subrange(lo as int, hi as int), max as nat) {
            Some(n) => r == Some(n as u64),
            None => r is None,
        },
{
    let ghost s = v@.subrange(lo as int, hi as int);
    let mut i = lo;
    if i < hi && v[i] == '+' {
        i = i + 1;
    }
    let ghost d = unsigned_digits(s);
    assert(d =~= v@.subrange(i as int, hi as int));
    if i == hi {
        return None;
    }
    let start = i;
    let mut value: u64 = 0;
    while i < hi
        invariant
            lo <= start <= i <= hi <= v@.len(),
            d =~= v@.subrange(start as int, hi as int),
            s == v@.subrange(lo as int, hi as int),
            d == unsigned_digits(s),
            max <= u32::MAX,
            value as nat == digits_value(d.take(i - start)),
            all_ascii_digits(d.take(i - start)),
            value <= max,
        decreases hi - i,
    {
        let c = v[i];
        if !('0' <= c && c <= '9') {
            proof {
                let k = i - start;
                assert(d[k] == c);
                assert(!all_ascii_digits(d));
            }
            return None;
        }
        assert(d.take(i - start + 1).drop_last() =~= d.take(i - start));
        let digit = (c as u32 - '0' as u32) as u64;
        let next = value * 10 + digit;
        if next > max {
            proof {
                if all_ascii_digits(d) {
                    lemma_digits_value_monotone(d, i - start + 1);
                }
            }
            return None;
        }
        value = next;
        i = i + 1;
    }
    assert(d.take(i - start) =~= d);
    Some(value)
}

/// `t` holds `lit` from `i`.
pub open spec fn has_at(t: Seq<char>, i: int, lit: Seq<char>) -> bool {
    0 <= i && i + lit.len() <= t.len() && t.subrange(i, i + lit.len()) == lit
}

/// Whether `t` holds `lit` from `i`.
pub fn has_at_exec(t: &Vec<char>, i: usize, lit: &Vec<char>) -> (r: bool)
    ensures
        r == has_at(t@, i as int, lit@),
{
    if i > t.len() || lit.len() > t.len() - i {
        return false;
    }
    let mut k: usize = 0;
    while k < lit.len()
        invariant
            i + lit@.len() <= t.len(),
            k <= lit@.len(),
            t@.subrange(i as int, i + k) == lit@.take(k as int),
        decreases lit@.len() - k,
    {
        if t[i + k] != lit[k] {
            assert(t@.subrange(i as int, i + lit@.len())[k as int] != lit@[k as int]);
            return false;
        }
        assert(t@.subrange(i as int, i + k + 1) =~= lit@.take(k + 1));
        k = k + 1;
    }
    assert(lit@.take(lit@.len() as int) =~= lit@);
    true
}

/// The first position at or after `i` where `s` holds `c`, or the end of `s`.
pub open spec fn char_index_from(s: Seq<char>, c: char, i: int) -> int
    decreases s.len() - i,
{
    if 0 <= i < s.len() && s[i] != c {
        char_index_from(s, c, i + 1)
    } else {
        i
    }
}

/// The first position at or after `i` where `s` holds `lit`.
pub open spec fn index_of_from(s: Seq<char>, lit: Seq<char>, i: int) -> Option<int>
    decreases s.len() + 1 - i,
{
    if i < 0 || i > s.len() {
        None
    } else if has_at(s, i, lit) {
        Some(i)
    } else {
        index_of_from(s, lit, i + 1)
    }
}

pub proof fn lemma_char_index_from_bounds(s: Seq<char>, c: char, i: int)
    requires
        0 <= i <= s.len(),
    ensures
        i <= char_index_from(s, c, i) <= s.len(),
    decreases s.len() - i,
{
    if i < s.len() && s[i] != c {
        lemma_char_index_from_bounds(s, c, i + 1);
    }
}

pub proof fn lemma_char_index_from_hit(s: Seq<char>, c: char, i: int)
    requires
        0 <= i <= s.len(),
    ensures
        char_index_from(s, c, i) < s.len() ==> s[char_index_from(s, c, i)] == c,
    decreases s.len() - i,
{
    if i < s.len() && s[i] != c {
        lemma_char_index_from_hit(s, c, i + 1);
    }
}

pub fn char_index_from_exec(v: &Vec<char>, c: char, i: usize) -> (r: usize)
    requires
        i <= v@.len(),
    ensures
        r == char_index_from(v@, c, i as int),
        i <= r <= v@.len(),
{
    let mut j = i;
    while j < v.len() && v[j] != c
        invariant
            i <= j <= v@.len(),
            char_index_from(v@, c, i as int) == char_index_from(v@, c, j as int),
        decreases v@.len() - j,
    {
        j = j + 1;
    }
    j
}

pub fn index_of_from_exec(v: &Vec<char>, lit: &Vec<char>, i: usize) -> (r: Option<usize>)
    requires
        i <= v@.len(),
    ensures
        r is None <==> index_of_from(v@, lit@, i as int) is None,
        r matches Some(j) ==> index_of_from(v@, lit@, i as int) == Some(j as int) && has_at(v@, j as int, lit@),
{
    let mut j = i;
    while j <= v.len()
        invariant
            i <= j <= v@.len() + 1,
            j <= usize::MAX,
            index_of_from(v@, lit@, i as int) == index_of_from(v@, lit@, j as int),
        decreases v@.len() + 1 - j,
    {
        if has_at_exec(v, j, lit) {
            return Some(j);
        }
        if j == v.len() {
            assert(index_of_from(v@, lit@, j + 1) is None);
            return None;
        }
        j = j + 1;
    }
    None
}

} // verus!
