//! Character-level text operations shared by the daemon's rules.
use vstd::prelude::*;

verus! {

/// Unicode `White_Space`: the characters that separate words and that trimming removes.
pub open spec fn is_space(c: char) -> bool {
    let n = c as u32;
    ||| 0x09 <= n <= 0x0d
    ||| n == 0x20
    ||| n == 0x85
    ||| n == 0xa0
    ||| n == 0x1680
    ||| 0x2000 <= n <= 0x200a
    ||| n == 0x2028
    ||| n == 0x2029
    ||| n == 0x202f
    ||| n == 0x205f
    ||| n == 0x3000
}

/// Tests a character for the Unicode `White_Space` property.
pub fn is_whitespace(c: char) -> (result: bool)
    ensures
        result == is_space(c),
{
    let n: u32 = c as u32;
    (0x09 <= n && n <= 0x0d) || n == 0x20 || n == 0x85 || n == 0xa0 || n == 0x1680 || (0x2000 <= n
        && n <= 0x200a) || n == 0x2028 || n == 0x2029 || n == 0x202f || n == 0x205f || n == 0x3000
}

/// Collects the characters of a string.
pub fn chars_of(s: &str) -> (chars: Vec<char>)
    ensures
        chars@ == s@,
{
    let mut chars: Vec<char> = Vec::new();
    for c in it: s.chars()
        invariant
            chars@ == it.seq().take(it.index() as int),
            it.seq() == s@,
    {
        chars.push(c);
    }
    chars
}

/// Appends one character.
///
/// `String::push` of the standard library: the given character is appended to the end.
pub assume_specification[ String::push ](s: &mut String, c: char)
    ensures
        final(s)@ == old(s)@.push(c),
;

/// What a vector of strings holds.
pub open spec fn texts(strings: Seq<String>) -> Seq<Seq<char>> {
    strings.map_values(|s: String| s@)
}

/// A text in UTF-8.
pub open spec fn utf8(s: Seq<char>) -> Seq<u8> {
    vstd::utf8::encode_utf8(s)
}

/// The text that bytes encode, if they are UTF-8.
pub open spec fn decoded(bytes: Seq<u8>) -> Option<Seq<char>> {
    if vstd::utf8::valid_utf8(bytes) {
        Some(vstd::utf8::decode_utf8(bytes))
    } else {
        None
    }
}

/// The bytes of a text encode that text.
pub proof fn lemma_decoded(s: Seq<char>)
    ensures
        decoded(utf8(s)) == Some(s),
{
    vstd::utf8::encode_utf8_valid_utf8(s);
    vstd::utf8::encode_utf8_decode_utf8(s);
}

/// Reads bytes as UTF-8.
///
/// Calls `std::str::from_utf8`, which gives the text that the bytes encode, or an error where they
/// are not valid UTF-8.
#[verifier::external_body]
pub(crate) fn as_utf8(bytes: &[u8]) -> (result: Option<&str>)
    ensures
        match result {
            Some(s) => decoded(bytes@) == Some(s@),
            None => decoded(bytes@) is None,
        },
{
    std::str::from_utf8(bytes).ok()
}

/// Whether two strings hold the same characters.
pub fn same(a: &str, b: &str) -> (result: bool)
    ensures
        result == (a@ == b@),
{
    let left = chars_of(a);
    let right = chars_of(b);
    same_chars(&left, &right)
}

/// Whether two character vectors are equal.
pub fn same_chars(left: &Vec<char>, right: &Vec<char>) -> (result: bool)
    ensures
        result == (left@ == right@),
{
    if left.len() != right.len() {
        return false;
    }
    for i in 0..left.len()
        invariant
            left.len() == right.len(),
            forall|j: int| 0 <= j < i ==> left@[j] == right@[j],
    {
        if left[i] != right[i] {
            return false;
        }
    }
    assert(left@ =~= right@);
    true
}

/// `text` with everything from `at` on that equals `part` in that place.
pub open spec fn occurs_at(text: Seq<char>, part: Seq<char>, at: int) -> bool {
    &&& 0 <= at
    &&& at + part.len() <= text.len()
    &&& text.subrange(at, at + part.len()) == part
}

/// Whether `part` stands in `text` at character `at`.
pub fn matches_at(text: &Vec<char>, part: &Vec<char>, at: usize) -> (result: bool)
    ensures
        result == occurs_at(text@, part@, at as int),
{
    if at > text.len() || part.len() > text.len() - at {
        return false;
    }
    for i in 0..part.len()
        invariant
            at + part.len() <= text.len(),
            forall|j: int| 0 <= j < i ==> text@[at + j] == part@[j],
    {
        if text[at + i] != part[i] {
            assert(text@.subrange(at as int, at + part.len())[i as int] != part@[i as int]);
            return false;
        }
    }
    assert(text@.subrange(at as int, at + part.len()) =~= part@);
    true
}

/// `str::starts_with` on a string pattern.
pub fn starts_with(text: &str, prefix: &str) -> (result: bool)
    ensures
        result == prefix@.is_prefix_of(text@),
{
    let chars = chars_of(text);
    let pattern = chars_of(prefix);
    let result = matches_at(&chars, &pattern, 0);
    assert(prefix@.len() <= text@.len() ==> text@.subrange(0, prefix@.len() as int)
        == text@.take(prefix@.len() as int));
    result
}

/// `str::ends_with` on a string pattern.
pub fn ends_with(text: &str, suffix: &str) -> (result: bool)
    ensures
        result == suffix@.is_suffix_of(text@),
{
    let chars = chars_of(text);
    let pattern = chars_of(suffix);
    if pattern.len() > chars.len() {
        return false;
    }
    matches_at(&chars, &pattern, chars.len() - pattern.len())
}

/// `text` holds `part` somewhere.
pub open spec fn holds(text: Seq<char>, part: Seq<char>) -> bool {
    exists|at: int| occurs_at(text, part, at)
}

/// `str::contains` on a string pattern.
pub fn contains(text: &str, part: &str) -> (result: bool)
    ensures
        result == holds(text@, part@),
{
    let chars = chars_of(text);
    let pattern = chars_of(part);
    let mut at: usize = 0;
    while at < chars.len()
        invariant
            chars@ == text@,
            pattern@ == part@,
            at <= chars.len(),
            forall|k: int| 0 <= k < at ==> !occurs_at(text@, part@, k),
        decreases chars.len() - at,
    {
        if matches_at(&chars, &pattern, at) {
            return true;
        }
        at = at + 1;
    }
    if matches_at(&chars, &pattern, at) {
        return true;
    }
    assert forall|k: int| !occurs_at(text@, part@, k) by {
        if k == text@.len() {
            assert(!occurs_at(text@, part@, at as int));
        }
    }
    false
}

/// The characters left of `n` with trailing white space dropped: how many are kept.
pub open spec fn kept_before(s: Seq<char>, n: int) -> int
    decreases n,
{
    if 0 < n <= s.len() && is_space(s[n - 1]) {
        kept_before(s, n - 1)
    } else {
        n
    }
}

/// The position of the first character at or after `i` that is not white space.
pub open spec fn skip_space(s: Seq<char>, i: int) -> int
    decreases s.len() - i,
{
    if 0 <= i < s.len() && is_space(s[i]) {
        skip_space(s, i + 1)
    } else {
        i
    }
}

/// `s` without leading and trailing white space.
pub open spec fn trimmed(s: Seq<char>) -> Seq<char> {
    let start = skip_space(s, 0);
    if start >= s.len() {
        Seq::empty()
    } else {
        s.subrange(start, kept_before(s, s.len() as int))
    }
}

/// Every character is white space.
pub open spec fn is_blank(s: Seq<char>) -> bool {
    forall|i: int| 0 <= i < s.len() ==> is_space(#[trigger] s[i])
}

/// The first or the last character is white space.
pub open spec fn is_padded(s: Seq<char>) -> bool {
    s.len() > 0 && (is_space(s[0]) || is_space(s.last()))
}

proof fn lemma_skip_space(s: Seq<char>, i: int)
    requires
        0 <= i <= s.len(),
    ensures
        i <= skip_space(s, i) <= s.len(),
        forall|j: int| i <= j < skip_space(s, i) ==> is_space(#[trigger] s[j]),
        skip_space(s, i) < s.len() ==> !is_space(s[skip_space(s, i)]),
    decreases s.len() - i,
{
    if i < s.len() && is_space(s[i]) {
        lemma_skip_space(s, i + 1);
    }
}

proof fn lemma_kept_before(s: Seq<char>, n: int, stop: int)
    requires
        0 <= stop < n <= s.len(),
        !is_space(s[stop]),
    ensures
        stop < kept_before(s, n) <= n,
        !is_space(s[kept_before(s, n) - 1]),
    decreases n,
{
    if is_space(s[n - 1]) {
        lemma_kept_before(s, n - 1, stop);
    }
}

/// Trimming leaves nothing exactly of a blank string, and changes nothing exactly of a string
/// that is not padded.
pub proof fn lemma_trimmed(s: Seq<char>)
    ensures
        trimmed(s).len() == 0 <==> is_blank(s),
        trimmed(s) == s <==> !is_padded(s),
        !is_padded(trimmed(s)),
{
    lemma_skip_space(s, 0);
    let start = skip_space(s, 0);
    if start < s.len() {
        lemma_kept_before(s, s.len() as int, start);
        let end = kept_before(s, s.len() as int);
        assert(trimmed(s)[0] == s[start]);
        assert(trimmed(s).last() == s[end - 1]);
        if is_padded(s) {
            assert(is_space(s[0]) || is_space(s[s.len() - 1]));
            assert(start > 0 || end < s.len());
            assert(trimmed(s).len() < s.len());
        } else {
            assert(start == 0);
            assert(end == s.len());
            assert(trimmed(s) =~= s);
        }
    } else {
        assert(s.len() > 0 ==> is_space(s[0]));
        assert(trimmed(s) == s ==> s.len() == 0);
        assert(s.len() == 0 ==> trimmed(s) =~= s);
    }
}

/// `str::trim`.
pub fn trim(s: &str) -> (result: &str)
    ensures
        result@ == trimmed(s@),
{
    let chars = chars_of(s);
    let mut start: usize = 0;
    while start < chars.len() && is_whitespace(chars[start])
        invariant
            chars@ == s@,
            start <= chars.len(),
            skip_space(s@, 0) == skip_space(s@, start as int),
        decreases chars.len() - start,
    {
        start = start + 1;
    }
    if start >= chars.len() {
        let none = s.substring_char(0, 0);
        assert(none@ =~= Seq::<char>::empty());
        return none;
    }
    let mut end: usize = chars.len();
    while end > start && is_whitespace(chars[end - 1])
        invariant
            chars@ == s@,
            start < chars.len(),
            !is_space(chars@[start as int]),
            start <= end <= chars.len(),
            kept_before(s@, chars@.len() as int) == kept_before(s@, end as int),
        decreases end,
    {
        end = end - 1;
    }
    proof {
        if end == start {
            lemma_kept_before(s@, s@.len() as int, start as int);
            lemma_kept_upper(s@, end as int);
        }
    }
    s.substring_char(start, end)
}

proof fn lemma_kept_upper(s: Seq<char>, n: int)
    requires
        0 <= n <= s.len(),
    ensures
        kept_before(s, n) <= n,
    decreases n,
{
    if 0 < n && is_space(s[n - 1]) {
        lemma_kept_upper(s, n - 1);
    }
}

/// `str::trim_start`.
pub fn trim_start(s: &str) -> (result: &str)
    ensures
        result@ == s@.skip(skip_space(s@, 0)),
{
    let chars = chars_of(s);
    let mut start: usize = 0;
    while start < chars.len() && is_whitespace(chars[start])
        invariant
            chars@ == s@,
            start <= chars.len(),
            skip_space(s@, 0) == skip_space(s@, start as int),
        decreases chars.len() - start,
    {
        start = start + 1;
    }
    let result = s.substring_char(start, chars.len());
    assert(result@ =~= s@.skip(start as int));
    result
}

/// Whether trimming would change the string.
pub fn has_padding(s: &str) -> (result: bool)
    ensures
        result == is_padded(s@),
        result == (trimmed(s@) != s@),
{
    proof {
        lemma_trimmed(s@);
    }
    let chars = chars_of(s);
    chars.len() > 0 && (is_whitespace(chars[0]) || is_whitespace(chars[chars.len() - 1]))
}

/// Whether trimming would leave nothing.
pub fn blank(s: &str) -> (result: bool)
    ensures
        result == is_blank(s@),
        result == (trimmed(s@).len() == 0),
{
    let chars = chars_of(s);
    for i in 0..chars.len()
        invariant
            chars@ == s@,
            forall|j: int| 0 <= j < i ==> is_space(#[trigger] s@[j]),
    {
        if !is_whitespace(chars[i]) {
            proof {
                lemma_trimmed(s@);
            }
            assert(!is_space(s@[i as int]));
            return false;
        }
    }
    proof {
        lemma_trimmed(s@);
    }
    true
}

/// Where the line that begins at `i` ends.
pub open spec fn line_end(s: Seq<char>, i: int) -> int
    decreases s.len() - i,
{
    if 0 <= i < s.len() && s[i] != '\n' {
        line_end(s, i + 1)
    } else {
        i
    }
}

/// A line ends at or behind its beginning, within the text.
pub proof fn lemma_line_end(s: Seq<char>, i: int)
    requires
        0 <= i <= s.len(),
    ensures
        i <= line_end(s, i) <= s.len(),
    decreases s.len() - i,
{
    if i < s.len() && s[i] != '\n' {
        lemma_line_end(s, i + 1);
    }
}

/// Joins two strings.
pub fn join2(a: &str, b: &str) -> (result: String)
    ensures
        result@ == a@ + b@,
{
    let mut out = a.to_owned();
    out.append(b);
    out
}

/// Joins three strings.
pub fn join3(a: &str, b: &str, c: &str) -> (result: String)
    ensures
        result@ == a@ + b@ + c@,
{
    let mut out = join2(a, b);
    out.append(c);
    out
}

/// Joins four strings.
pub fn join4(a: &str, b: &str, c: &str, d: &str) -> (result: String)
    ensures
        result@ == a@ + b@ + c@ + d@,
{
    let mut out = join3(a, b, c);
    out.append(d);
    out
}

/// Joins five strings.
pub fn join5(a: &str, b: &str, c: &str, d: &str, e: &str) -> (result: String)
    ensures
        result@ == a@ + b@ + c@ + d@ + e@,
{
    let mut out = join3(a, b, c);
    out.append(d);
    out.append(e);
    out
}

/// The decimal digit of a value below ten.
pub open spec fn digit(n: nat) -> char {
    ('0' as u32 + n) as char
}

/// A number in decimal notation.
pub open spec fn decimal(n: nat) -> Seq<char>
    decreases n,
{
    if n < 10 {
        seq![digit(n)]
    } else {
        decimal(n / 10).push(digit(n % 10))
    }
}

/// Writes a number in decimal notation.
pub fn decimal_text(n: u64) -> (result: String)
    ensures
        result@ == decimal(n as nat),
    decreases n,
{
    let mut out = if n < 10 {
        String::new()
    } else {
        decimal_text(n / 10)
    };
    let value: u64 = n % 10;
    let c = digit_char(value);
    out.push(c);
    proof {
        if n < 10 {
            assert(Seq::<char>::empty().push(c) =~= seq![digit(n as nat)]);
        }
    }
    out
}

fn digit_char(value: u64) -> (c: char)
    requires
        value < 10,
    ensures
        c == digit(value as nat),
{
    if value == 0 {
        '0'
    } else if value == 1 {
        '1'
    } else if value == 2 {
        '2'
    } else if value == 3 {
        '3'
    } else if value == 4 {
        '4'
    } else if value == 5 {
        '5'
    } else if value == 6 {
        '6'
    } else if value == 7 {
        '7'
    } else if value == 8 {
        '8'
    } else {
        '9'
    }
}

/// An ASCII decimal digit.
pub open spec fn is_digit(c: char) -> bool {
    '0' as u32 <= c as u32 <= '9' as u32
}

/// `char::is_ascii_digit`.
pub fn ascii_digit(c: char) -> (result: bool)
    ensures
        result == is_digit(c),
{
    let n: u32 = c as u32;
    0x30 <= n && n <= 0x39
}

/// The value of a string of decimal digits.
pub open spec fn digits_value(s: Seq<char>) -> nat
    decreases s.len(),
{
    if s.len() == 0 {
        0
    } else {
        digits_value(s.drop_last()) * 10 + (s.last() as u32 - '0' as u32) as nat
    }
}

/// A string of decimal digits and nothing else, at least one.
pub open spec fn is_digits(s: Seq<char>) -> bool {
    s.len() > 0 && forall|i: int| 0 <= i < s.len() ==> is_digit(#[trigger] s[i])
}

/// The number that a string denotes, if it is decimal digits after an optional `+` and the value
/// is at most `max`.
pub open spec fn parsed_number(s: Seq<char>, max: nat) -> Option<nat> {
    let body = if s.len() > 0 && s[0] == '+' {
        s.subrange(1, s.len() as int)
    } else {
        s
    };
    if is_digits(body) && digits_value(body) <= max {
        Some(digits_value(body))
    } else {
        None
    }
}

proof fn lemma_digits_monotone(s: Seq<char>, n: int)
    requires
        0 <= n <= s.len(),
    ensures
        digits_value(s.take(n)) <= digits_value(s),
    decreases s.len(),
{
    if n == s.len() {
        assert(s.take(n) =~= s);
    } else {
        lemma_digits_monotone(s.drop_last(), n);
        assert(s.drop_last().take(n) =~= s.take(n));
    }
}

/// Reads a decimal number as `u64::from_str` and `u32::from_str` do, with a bound.
pub fn parse_number(s: &str, max: u64) -> (result: Option<u64>)
    ensures
        result.is_some() == parsed_number(s@, max as nat).is_some(),
        result.is_some() ==> result.unwrap() as nat == parsed_number(s@, max as nat).unwrap(),
{
    let chars = chars_of(s);
    let start: usize = if chars.len() > 0 && chars[0] == '+' {
        1
    } else {
        0
    };
    let ghost body = s@.subrange(start as int, s@.len() as int);
    assert(start == 0 ==> body =~= s@);
    if start == chars.len() {
        return None;
    }
    let mut value: u64 = 0;
    let mut i: usize = start;
    while i < chars.len()
        invariant
            chars@ == s@,
            start <= i <= chars.len(),
            start <= s@.len(),
            body == s@.subrange(start as int, s@.len() as int),
            forall|j: int| 0 <= j < i - start ==> is_digit(#[trigger] body[j]),
            value as nat == digits_value(body.take(i - start)),
            value <= max,
            body == (if s@.len() > 0 && s@[0] == '+' {
                s@.subrange(1, s@.len() as int)
            } else {
                s@
            }),
        decreases chars.len() - i,
    {
        let c = chars[i];
        if !ascii_digit(c) {
            assert(!is_digit(body[i - start]));
            return None;
        }
        let d: u64 = (c as u32 - 0x30) as u64;
        proof {
            let next = body.take(i - start + 1);
            assert(next.drop_last() =~= body.take(i - start));
            assert(next.last() == c);
            assert(digits_value(next) == value * 10 + d);
            lemma_digits_monotone(body, i - start + 1);
        }
        if d > max || value > (max - d) / 10 {
            proof {
                assert(value * 10 + d > max);
            }
            return None;
        }
        value = value * 10 + d;
        i = i + 1;
    }
    assert(body.take(i - start) =~= body);
    Some(value)
}

/// A control character: Unicode category `Cc`.
pub open spec fn is_control(c: char) -> bool {
    let n = c as u32;
    n <= 0x1f || 0x7f <= n <= 0x9f
}

/// Whether some character of a string is a control character.
pub fn contains_control(s: &str) -> (result: bool)
    ensures
        result == exists|i: int| 0 <= i < s@.len() && is_control(#[trigger] s@[i]),
{
    let chars = chars_of(s);
    for i in 0..chars.len()
        invariant
            chars@ == s@,
            forall|j: int| 0 <= j < i ==> !is_control(#[trigger] s@[j]),
    {
        let n: u32 = chars[i] as u32;
        if n <= 0x1f || (0x7f <= n && n <= 0x9f) {
            assert(is_control(s@[i as int]));
            return true;
        }
    }
    false
}

/// A string as `{:?}` writes it: in quotes, with escapes.
pub uninterp spec fn debug_of(s: Seq<char>) -> Seq<char>;

/// Writes a string in quotes, with escapes.
///
/// Formats with `{:?}`, that is by the `Debug` of `str` in the standard library. The result
/// depends on the string alone; which characters are escaped is not stated.
#[verifier::external_body]
pub(crate) fn debug_text(s: &str) -> (result: String)
    ensures
        result@ == debug_of(s@),
{
    format!("{s:?}")
}

/// Blanks, tabs and line ends are white space; what ASCII can print besides the blank is not.
pub proof fn ascii_white_space(c: char)
    ensures
        c == ' ' || c == '\t' || c == '\n' || c == '\r' ==> is_space(c),
        33 <= c as int <= 126 ==> !is_space(c) && !is_control(c),
        c as int <= 31 || c as int == 127 ==> is_control(c),
{
}

proof fn lemma_skip_blank(s: Seq<char>, i: int, n: int)
    requires
        0 <= i <= n < s.len(),
        forall|k: int| i <= k < n ==> is_space(#[trigger] s[k]),
        !is_space(s[n]),
    ensures
        skip_space(s, i) == n,
    decreases n - i,
{
    if i < n {
        lemma_skip_blank(s, i + 1, n);
    }
}

proof fn lemma_keep_blank(s: Seq<char>, n: int, m: int)
    requires
        0 < n <= m <= s.len(),
        forall|k: int| n <= k < m ==> is_space(#[trigger] s[k]),
        !is_space(s[n - 1]),
    ensures
        kept_before(s, m) == n,
    decreases m,
{
    if n < m {
        assert(is_space(s[m - 1]));
        lemma_keep_blank(s, n, m - 1);
    }
}

/// Trimming takes off the white space around a text and nothing of the text.
pub proof fn trimming_takes_off_what_is_around(
    before: Seq<char>,
    inner: Seq<char>,
    after: Seq<char>,
    s: &str,
    result: &str,
)
    requires
        call_ensures(trim, (s,), result),
        s@ == before + inner + after,
        forall|i: int| 0 <= i < before.len() ==> is_space(#[trigger] before[i]),
        forall|i: int| 0 <= i < after.len() ==> is_space(#[trigger] after[i]),
        inner.len() > 0,
        !is_space(inner[0]),
        !is_space(inner.last()),
    ensures
        result@ == inner,
{
    lemma_trimmed_inner(before, inner, after);
}

/// Trimming takes off the white space around a text.
pub proof fn lemma_trimmed_inner(before: Seq<char>, inner: Seq<char>, after: Seq<char>)
    requires
        forall|i: int| 0 <= i < before.len() ==> is_space(#[trigger] before[i]),
        forall|i: int| 0 <= i < after.len() ==> is_space(#[trigger] after[i]),
        inner.len() > 0,
        !is_space(inner[0]),
        !is_space(inner.last()),
    ensures
        trimmed(before + inner + after) == inner,
{
    let s = before + inner + after;
    let start = before.len() as int;
    let end = (before.len() + inner.len()) as int;
    assert forall|k: int| 0 <= k < start implies is_space(#[trigger] s[k]) by {
        assert(s[k] == before[k]);
    }
    assert forall|k: int| end <= k < s.len() implies is_space(#[trigger] s[k]) by {
        assert(s[k] == after[k - end]);
    }
    assert(s[start] == inner[0]);
    assert(s[end - 1] == inner.last());
    lemma_skip_blank(s, 0, start);
    lemma_keep_blank(s, end, s.len() as int);
    assert(s.subrange(start, end) =~= inner);
}

/// A number in decimal notation consists of digits, and they stand for the number.
pub proof fn lemma_decimal_value(n: nat)
    ensures
        is_digits(decimal(n)),
        digits_value(decimal(n)) == n,
        decimal(n)[0] != '+',
        !is_space(decimal(n)[0]),
        !is_space(decimal(n).last()),
    decreases n,
{
    if n < 10 {
        let d = decimal(n);
        assert(d.drop_last() =~= Seq::<char>::empty());
        assert(d.last() == digit(n));
        assert(digits_value(d.drop_last()) == 0);
    } else {
        lemma_decimal_value(n / 10);
        let d = decimal(n);
        assert(d.drop_last() =~= decimal(n / 10));
        assert(d.last() == digit(n % 10));
        assert forall|i: int| 0 <= i < d.len() implies is_digit(#[trigger] d[i]) by {
            if i < d.len() - 1 {
                assert(d[i] == decimal(n / 10)[i]);
            }
        }
        assert(d[0] == decimal(n / 10)[0]);
        assert(n == n / 10 * 10 + n % 10);
    }
}

/// A number that is written is read back, with white space around it and with a plus before it, up to
/// the greatest number that is asked for and not beyond it. So two numbers are never written alike.
pub proof fn written_number_is_read_back(
    n: u64,
    other: u64,
    max: u64,
    text: String,
    other_text: String,
    written: &str,
    read: Option<u64>,
)
    requires
        call_ensures(decimal_text, (n,), text),
        call_ensures(decimal_text, (other,), other_text),
        written@ == text@,
        call_ensures(parse_number, (written, max), read),
    ensures
        read == if n <= max {
            Some(n)
        } else {
            None
        },
        text@ == other_text@ <==> n == other,
        parsed_number(seq!['+'] + text@, max as nat) == parsed_number(text@, max as nat),
{
    lemma_decimal_value(n as nat);
    lemma_decimal_value(other as nat);
    let signed = seq!['+'] + text@;
    assert(signed.subrange(1, signed.len() as int) =~= text@);
}

/// A text that holds anything but digits, besides a plus before them, is no number.
pub proof fn only_digits_are_numbers(s: &str, max: u64, at: int, read: Option<u64>)
    requires
        call_ensures(parse_number, (s, max), read),
        0 <= at < s@.len(),
        !('0' <= s@[at] && s@[at] <= '9'),
        at > 0 || s@[at] != '+' || s@.len() == 1,
    ensures
        read is None,
{
    lemma_no_digit(s@[at]);
    if s@[0] == '+' {
        let body = s@.subrange(1, s@.len() as int);
        if at > 0 {
            assert(body[at - 1] == s@[at]);
        }
    }
}

proof fn lemma_no_digit(c: char)
    ensures
        is_digit(c) <==> '0' <= c && c <= '9',
{
}

/// The characters below the blank, the deletion sign and those of the second control block are control
/// characters, and no others.
pub proof fn control_characters(c: char)
    ensures
        c < ' ' ==> is_control(c),
        ' ' <= c <= '~' ==> !is_control(c),
        '\u{7f}' <= c <= '\u{9f}' ==> is_control(c),
        c >= '\u{a0}' ==> !is_control(c),
{
}

/// White space beyond ASCII is what Unicode takes for it, and nothing else is.
pub proof fn wide_white_space(c: char, result: bool)
    requires
        call_ensures(is_whitespace, (c,), result),
    ensures
        c <= '\u{7f}' ==> (result <==> '\t' <= c <= '\r' || c == ' '),
        c > '\u{7f}' ==> (result <==> c == '\u{85}' || c == '\u{a0}' || c == '\u{1680}'
            || '\u{2000}' <= c <= '\u{200a}' || c == '\u{2028}' || c == '\u{2029}' || c
            == '\u{202f}' || c == '\u{205f}' || c == '\u{3000}'),
{
}

} // verus!
