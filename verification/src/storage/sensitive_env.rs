//! Environment names that look like they carry credentials.
//!
//! Names are all that is looked at: values are neither classified nor logged.
use crate::text;
use crate::text::{chars_of, contains, ends_with, same};
use vstd::prelude::*;

verus! {

/// An ASCII letter or digit.
pub open spec fn is_alphanumeric(c: char) -> bool {
    ('0' <= c && c <= '9') || ('A' <= c && c <= 'Z') || ('a' <= c && c <= 'z')
}

/// An ASCII lower case letter as upper case; anything else as it is.
pub open spec fn upper(c: char) -> char {
    if 'a' <= c && c <= 'z' {
        ((c as u32) - 32) as char
    } else {
        c
    }
}

/// The words of the first `n` characters, in upper case, and the word that is still open there.
///
/// A word is a run of ASCII letters and digits that cannot be made longer.
pub open spec fn words_before(name: Seq<char>, n: int) -> (Seq<Seq<char>>, Seq<char>)
    decreases n,
{
    if n <= 0 || n > name.len() {
        (Seq::empty(), Seq::empty())
    } else {
        let (words, open) = words_before(name, n - 1);
        if is_alphanumeric(name[n - 1]) {
            (words, open.push(upper(name[n - 1])))
        } else if open.len() > 0 {
            (words.push(open), Seq::empty())
        } else {
            (words, open)
        }
    }
}

/// The words of a name, in upper case.
pub open spec fn name_words(name: Seq<char>) -> Seq<Seq<char>> {
    let (words, open) = words_before(name, name.len() as int);
    if open.len() > 0 {
        words.push(open)
    } else {
        words
    }
}

/// The words of the first `n` characters without what separates them.
pub open spec fn compact_before(name: Seq<char>, n: int) -> Seq<char>
    decreases n,
{
    if n <= 0 || n > name.len() {
        Seq::empty()
    } else if is_alphanumeric(name[n - 1]) {
        compact_before(name, n - 1).push(upper(name[n - 1]))
    } else {
        compact_before(name, n - 1)
    }
}

/// The words of a name without what separates them.
pub open spec fn compact(name: Seq<char>) -> Seq<char> {
    compact_before(name, name.len() as int)
}

/// One of the words is a word for a credential.
pub open spec fn names_credential(words: Seq<Seq<char>>) -> bool {
    ||| words.contains("TOKEN"@)
    ||| words.contains("SECRET"@)
    ||| words.contains("PASSWORD"@)
    ||| words.contains("PASSWD"@)
    ||| words.contains("PASS"@)
    ||| words.contains("CREDENTIAL"@)
    ||| words.contains("CREDENTIALS"@)
    ||| words.contains("AUTH"@)
    ||| words.contains("AUTHORIZATION"@)
    ||| words.contains("OAUTH"@)
    ||| words.contains("COOKIE"@)
    ||| words.contains("DSN"@)
    ||| words.contains("PASSPHRASE"@)
}

/// The words run together spell a credential.
pub open spec fn spells_credential(compact: Seq<char>) -> bool {
    ||| "TOKEN"@.is_suffix_of(compact)
    ||| "SECRET"@.is_suffix_of(compact)
    ||| text::holds(compact, "PASSWORD"@)
    ||| "CREDENTIAL"@.is_suffix_of(compact)
    ||| "CREDENTIALS"@.is_suffix_of(compact)
    ||| "COOKIE"@.is_suffix_of(compact)
    ||| text::holds(compact, "APIKEY"@)
    ||| text::holds(compact, "ACCESSKEY"@)
    ||| text::holds(compact, "PRIVATEKEY"@)
}

pub open spec fn names_database(compact: Seq<char>) -> bool {
    ||| text::holds(compact, "DATABASE"@)
    ||| text::holds(compact, "REDIS"@)
    ||| text::holds(compact, "MONGO"@)
    ||| text::holds(compact, "MONGODB"@)
    ||| text::holds(compact, "POSTGRES"@)
    ||| text::holds(compact, "POSTGRESQL"@)
}

pub open spec fn names_connection(words: Seq<Seq<char>>, compact: Seq<char>) -> bool {
    ||| words.contains("URL"@)
    ||| words.contains("URI"@)
    ||| words.contains("CONNECTIONSTRING"@)
    ||| text::holds(compact, "CONNECTIONSTRING"@)
}

/// A name that looks like it carries a credential.
pub open spec fn is_sensitive(name: Seq<char>) -> bool {
    ||| names_credential(name_words(name))
    ||| spells_credential(compact(name))
    ||| names_database(compact(name)) && names_connection(name_words(name), compact(name))
}

fn ascii_alphanumeric(c: char) -> (result: bool)
    ensures
        result == is_alphanumeric(c),
{
    ('0' <= c && c <= '9') || ('A' <= c && c <= 'Z') || ('a' <= c && c <= 'z')
}

fn ascii_upper(c: char) -> (result: char)
    ensures
        result == upper(c),
{
    if 'a' <= c && c <= 'z' {
        ((c as u8) - 32) as char
    } else {
        c
    }
}

fn has_word(words: &Vec<String>, candidate: &str) -> (result: bool)
    ensures
        result == text::texts(words@).contains(candidate@),
{
    for i in 0..words.len()
        invariant
            forall|j: int| 0 <= j < i ==> #[trigger] text::texts(words@)[j] != candidate@,
    {
        assert(text::texts(words@)[i as int] == words@[i as int]@);
        if same(words[i].as_str(), candidate) {
            return true;
        }
    }
    false
}

fn push_word(words: &mut Vec<String>, word: String)
    ensures
        text::texts(final(words)@) == text::texts(old(words)@).push(word@),
{
    let ghost before = words@;
    words.push(word);
    assert(text::texts(words@) =~= text::texts(before).push(word@));
}

/// The words of a name in upper case, and the same run together.
fn split_name(name: &str) -> (split: (Vec<String>, String))
    ensures
        text::texts(split.0@) == name_words(name@),
        split.1@ == compact(name@),
{
    let chars = chars_of(name);
    let mut words: Vec<String> = Vec::new();
    let mut open = String::new();
    let mut open_len: usize = 0;
    let mut together = String::new();
    assert(text::texts(words@) =~= Seq::<Seq<char>>::empty());
    for i in 0..chars.len()
        invariant
            chars@ == name@,
            open_len == open@.len(),
            open_len <= i,
            words_before(name@, i as int) == (text::texts(words@), open@),
            together@ == compact_before(name@, i as int),
    {
        let c = chars[i];
        if ascii_alphanumeric(c) {
            open.push(ascii_upper(c));
            together.push(ascii_upper(c));
            open_len = open_len + 1;
        } else if open_len > 0 {
            push_word(&mut words, open);
            open = String::new();
            open_len = 0;
        }
    }
    if open_len > 0 {
        push_word(&mut words, open);
    }
    (words, together)
}

/// Whether a name looks like it carries a credential.
pub fn is_sensitive_env_name(name: &str) -> (result: bool)
    ensures
        result == is_sensitive(name@),
{
    let (words, together) = split_name(name);
    let compact = together.as_str();
    if has_word(&words, "TOKEN") || has_word(&words, "SECRET") || has_word(&words, "PASSWORD")
        || has_word(&words, "PASSWD") || has_word(&words, "PASS") || has_word(&words, "CREDENTIAL")
        || has_word(&words, "CREDENTIALS") || has_word(&words, "AUTH") || has_word(
        &words,
        "AUTHORIZATION",
    ) || has_word(&words, "OAUTH") || has_word(&words, "COOKIE") || has_word(&words, "DSN")
        || has_word(&words, "PASSPHRASE") {
        return true;
    }
    if ends_with(compact, "TOKEN") || ends_with(compact, "SECRET") || contains(compact, "PASSWORD")
        || ends_with(compact, "CREDENTIAL") || ends_with(compact, "CREDENTIALS") || ends_with(
        compact,
        "COOKIE",
    ) || contains(compact, "APIKEY") || contains(compact, "ACCESSKEY") || contains(
        compact,
        "PRIVATEKEY",
    ) {
        return true;
    }
    let database = contains(compact, "DATABASE") || contains(compact, "REDIS") || contains(
        compact,
        "MONGO",
    ) || contains(compact, "MONGODB") || contains(compact, "POSTGRES") || contains(
        compact,
        "POSTGRESQL",
    );
    let locator = has_word(&words, "URL") || has_word(&words, "URI") || has_word(
        &words,
        "CONNECTIONSTRING",
    ) || contains(compact, "CONNECTIONSTRING");
    database && locator
}

/// Two names that differ only in the case of ASCII letters.
pub open spec fn same_but_for_case(a: Seq<char>, b: Seq<char>) -> bool {
    &&& a.len() == b.len()
    &&& forall|i: int| 0 <= i < a.len() ==> upper(#[trigger] a[i]) == upper(b[i])
}

proof fn lemma_case_of_words(a: Seq<char>, b: Seq<char>, n: int)
    requires
        same_but_for_case(a, b),
        0 <= n <= a.len(),
    ensures
        words_before(a, n) == words_before(b, n),
        compact_before(a, n) == compact_before(b, n),
    decreases n,
{
    if n > 0 {
        lemma_case_of_words(a, b, n - 1);
        assert(upper(a[n - 1]) == upper(b[n - 1]));
    }
}

/// The case of ASCII letters has no part in whether a name is sensitive.
pub proof fn case_does_not_matter(a: Seq<char>, b: Seq<char>)
    requires
        same_but_for_case(a, b),
    ensures
        is_sensitive(a) == is_sensitive(b),
{
    lemma_case_of_words(a, b, a.len() as int);
}

/// No character is an ASCII letter or digit.
pub open spec fn is_separator(s: Seq<char>) -> bool {
    forall|i: int| 0 <= i < s.len() ==> !is_alphanumeric(#[trigger] s[i])
}

proof fn lemma_leading_separator(before: Seq<char>, name: Seq<char>, n: int)
    requires
        is_separator(before),
        -before.len() <= n <= name.len(),
    ensures
        words_before(before + name, before.len() + n) == words_before(name, n),
        compact_before(before + name, before.len() + n) == compact_before(name, n),
    decreases before.len() + n,
{
    if before.len() + n > 0 {
        lemma_leading_separator(before, name, n - 1);
        if n > 0 {
            assert((before + name)[before.len() + n - 1] == name[n - 1]);
        } else {
            assert((before + name)[before.len() + n - 1] == before[before.len() + n - 1]);
        }
    }
}

proof fn lemma_same_start(name: Seq<char>, after: Seq<char>, n: int)
    requires
        0 <= n <= name.len(),
    ensures
        words_before(name + after, n) == words_before(name, n),
        compact_before(name + after, n) == compact_before(name, n),
    decreases n,
{
    if n > 0 {
        lemma_same_start(name, after, n - 1);
        assert((name + after)[n - 1] == name[n - 1]);
    }
}

proof fn lemma_trailing_separator(name: Seq<char>, after: Seq<char>, k: int)
    requires
        is_separator(after),
        0 < k <= after.len(),
    ensures
        words_before(name + after, name.len() + k) == (name_words(name), Seq::<char>::empty()),
        compact_before(name + after, name.len() + k) == compact(name),
    decreases k,
{
    lemma_same_start(name, after, name.len() as int);
    assert((name + after)[name.len() + k - 1] == after[k - 1]);
    if k > 1 {
        lemma_trailing_separator(name, after, k - 1);
    }
    assert(words_before(name, name.len() as int).1.len() == 0 ==> words_before(
        name,
        name.len() as int,
    ).1 =~= Seq::<char>::empty());
}

/// What stands around a name, without being a letter or a digit, has no part in whether the name is
/// sensitive.
pub proof fn outer_separators_do_not_matter(before: Seq<char>, name: Seq<char>, after: Seq<char>)
    requires
        is_separator(before),
        is_separator(after),
    ensures
        is_sensitive(before + name + after) == is_sensitive(name),
{
    let inner = before + name;
    lemma_leading_separator(before, name, name.len() as int);
    if after.len() > 0 {
        lemma_trailing_separator(inner, after, after.len() as int);
    } else {
        assert(inner + after =~= inner);
    }
}

/// An ASCII letter or digit, by its number.
pub open spec fn is_word_number(n: int) -> bool {
    48 <= n <= 57 || 65 <= n <= 90 || 97 <= n <= 122
}

/// A text is an upper case word, but perhaps for the case of its letters.
pub open spec fn is_in_any_case(s: Seq<char>, word: Seq<char>) -> bool {
    &&& s.len() == word.len()
    &&& forall|i: int|
        0 <= i < s.len() ==> #[trigger] s[i] == word[i] || (s[i] as int) == (word[i] as int) + 32
}

proof fn lemma_literal_words(word: Seq<char>)
    requires
        word == "TOKEN"@ || word == "SECRET"@ || word == "PASSWORD"@ || word == "PASSWD"@
            || word == "PASS"@ || word == "CREDENTIAL"@ || word == "CREDENTIALS"@
            || word == "AUTH"@ || word == "AUTHORIZATION"@ || word == "OAUTH"@
            || word == "COOKIE"@ || word == "DSN"@ || word == "PASSPHRASE"@ || word == "APIKEY"@
            || word == "ACCESSKEY"@ || word == "PRIVATEKEY"@ || word == "DATABASE"@
            || word == "REDIS"@ || word == "MONGO"@ || word == "POSTGRES"@ || word == "URL"@
            || word == "URI"@ || word == "CONNECTIONSTRING"@,
    ensures
        0 < word.len(),
        forall|i: int| 0 <= i < word.len() ==> 65 <= (#[trigger] word[i]) as int <= 90,
{
    reveal_strlit("TOKEN");
    reveal_strlit("SECRET");
    reveal_strlit("PASSWORD");
    reveal_strlit("PASSWD");
    reveal_strlit("PASS");
    reveal_strlit("CREDENTIAL");
    reveal_strlit("CREDENTIALS");
    reveal_strlit("AUTH");
    reveal_strlit("AUTHORIZATION");
    reveal_strlit("OAUTH");
    reveal_strlit("COOKIE");
    reveal_strlit("DSN");
    reveal_strlit("PASSPHRASE");
    reveal_strlit("APIKEY");
    reveal_strlit("ACCESSKEY");
    reveal_strlit("PRIVATEKEY");
    reveal_strlit("DATABASE");
    reveal_strlit("REDIS");
    reveal_strlit("MONGO");
    reveal_strlit("POSTGRES");
    reveal_strlit("URL");
    reveal_strlit("URI");
    reveal_strlit("CONNECTIONSTRING");
}

/// The characters of a text in upper case.
pub open spec fn uppered(s: Seq<char>) -> Seq<char> {
    s.map_values(|c: char| upper(c))
}

proof fn lemma_in_any_case(s: Seq<char>, word: Seq<char>)
    requires
        is_in_any_case(s, word),
        forall|i: int| 0 <= i < word.len() ==> 65 <= (#[trigger] word[i]) as int <= 90,
    ensures
        uppered(s) == word,
        forall|i: int| 0 <= i < s.len() ==> is_alphanumeric(#[trigger] s[i]),
{
    assert forall|i: int| 0 <= i < s.len() implies upper(#[trigger] s[i]) == word[i]
        && is_alphanumeric(s[i]) by {
        assert(65 <= word[i] as int <= 90);
        if s[i] != word[i] {
            assert(s[i] as int == word[i] as int + 32);
        }
    }
    assert(uppered(s) =~= word);
}

proof fn lemma_word_run(name: Seq<char>, n: int, k: int)
    requires
        0 <= n,
        0 <= k,
        n + k <= name.len(),
        words_before(name, n).1.len() == 0,
        forall|i: int| n <= i < n + k ==> is_alphanumeric(#[trigger] name[i]),
    ensures
        words_before(name, n + k) == (
            words_before(name, n).0,
            uppered(name.subrange(n, n + k)),
        ),
    decreases k,
{
    if k == 0 {
        assert(words_before(name, n).1 =~= uppered(name.subrange(n, n)));
    } else {
        lemma_word_run(name, n, k - 1);
        assert(uppered(name.subrange(n, n + k)) =~= uppered(name.subrange(n, n + k - 1)).push(
            upper(name[n + k - 1]),
        ));
    }
}

proof fn lemma_words_stay(name: Seq<char>, n: int, m: int, word: Seq<char>)
    requires
        0 <= n <= m <= name.len(),
        words_before(name, n).0.contains(word),
    ensures
        words_before(name, m).0.contains(word),
    decreases m - n,
{
    if n < m {
        lemma_words_stay(name, n, m - 1, word);
        let (words, open) = words_before(name, m - 1);
        let i = choose|i: int| 0 <= i < words.len() && words[i] == word;
        assert(words.push(open)[i] == word);
    }
}

/// A run of letters and digits that cannot be made longer is one of the words of a name.
proof fn lemma_run_is_a_word(name: Seq<char>, from: int, to: int)
    requires
        0 <= from < to <= name.len(),
        from > 0 ==> !is_alphanumeric(name[from - 1]),
        to < name.len() ==> !is_alphanumeric(name[to]),
        forall|i: int| from <= i < to ==> is_alphanumeric(#[trigger] name[i]),
    ensures
        name_words(name).contains(uppered(name.subrange(from, to))),
{
    let word = uppered(name.subrange(from, to));
    lemma_word_run(name, from, to - from);
    let (words, open) = words_before(name, to);
    assert(open == word);
    assert(words.push(open)[words.len() as int] == word);
    if to < name.len() {
        assert(words_before(name, to + 1).0 == words.push(open));
        lemma_words_stay(name, to + 1, name.len() as int, word);
        let (all, last) = words_before(name, name.len() as int);
        let i = choose|i: int| 0 <= i < all.len() && all[i] == word;
        assert(all.push(last)[i] == word);
    }
}

/// A credential word makes a name sensitive wherever it stands among the words, in whatever case it
/// is written and whatever separates it from what stands before and behind it.
pub proof fn credential_word_is_sensitive_anywhere(
    name: &str,
    before: Seq<char>,
    written: Seq<char>,
    after: Seq<char>,
    word: Seq<char>,
    result: bool,
)
    requires
        call_ensures(is_sensitive_env_name, (name,), result),
        word == "TOKEN"@ || word == "SECRET"@ || word == "PASSWORD"@ || word == "PASSWD"@
            || word == "PASS"@ || word == "CREDENTIAL"@ || word == "CREDENTIALS"@
            || word == "AUTH"@ || word == "AUTHORIZATION"@ || word == "OAUTH"@
            || word == "COOKIE"@ || word == "DSN"@ || word == "PASSPHRASE"@,
        is_in_any_case(written, word),
        name@ == before + written + after,
        before.len() > 0 ==> !is_word_number(before.last() as int),
        after.len() > 0 ==> !is_word_number(after[0] as int),
    ensures
        result,
{
    lemma_literal_words(word);
    lemma_in_any_case(written, word);
    let from = before.len() as int;
    let to = (before.len() + written.len()) as int;
    assert(name@.subrange(from, to) =~= written);
    assert forall|i: int| from <= i < to implies is_alphanumeric(#[trigger] name@[i]) by {
        assert(name@[i] == written[i - from]);
    }
    lemma_run_is_a_word(name@, from, to);
}

/// Between two texts, with an underscore on either side, every credential word makes a name
/// sensitive.
pub proof fn credential_word_is_sensitive_between_others(
    a: Seq<char>,
    b: Seq<char>,
    word: Seq<char>,
    name: &str,
    result: bool,
)
    requires
        call_ensures(is_sensitive_env_name, (name,), result),
        word == "TOKEN"@ || word == "SECRET"@ || word == "PASSWORD"@ || word == "PASSWD"@
            || word == "PASS"@ || word == "CREDENTIAL"@ || word == "CREDENTIALS"@
            || word == "AUTH"@ || word == "AUTHORIZATION"@ || word == "OAUTH"@
            || word == "COOKIE"@ || word == "DSN"@ || word == "PASSPHRASE"@,
        name@ == a + "_"@ + word + "_"@ + b,
    ensures
        result,
{
    reveal_strlit("_");
    let before = a + "_"@;
    let after = "_"@ + b;
    assert(name@ =~= before + word + after);
    assert(before.last() == '_');
    assert(after[0] == '_');
    credential_word_is_sensitive_anywhere(name, before, word, after, word, result);
}

proof fn lemma_compact_sum(a: Seq<char>, b: Seq<char>, n: int)
    requires
        0 <= n <= b.len(),
    ensures
        compact_before(a + b, a.len() + n) == compact(a) + compact_before(b, n),
    decreases n,
{
    if n == 0 {
        lemma_same_start(a, b, a.len() as int);
        assert(compact(a) + compact_before(b, 0) =~= compact(a));
    } else {
        lemma_compact_sum(a, b, n - 1);
        assert((a + b)[a.len() + n - 1] == b[n - 1]);
        assert(compact(a) + compact_before(b, n) =~= if is_alphanumeric(b[n - 1]) {
            (compact(a) + compact_before(b, n - 1)).push(upper(b[n - 1]))
        } else {
            compact(a) + compact_before(b, n - 1)
        });
    }
}

proof fn lemma_compact_word(s: Seq<char>, n: int)
    requires
        0 <= n <= s.len(),
        forall|i: int| 0 <= i < s.len() ==> is_alphanumeric(#[trigger] s[i]),
    ensures
        compact_before(s, n) == uppered(s.take(n)),
    decreases n,
{
    if n > 0 {
        lemma_compact_word(s, n - 1);
        assert(uppered(s.take(n)) =~= uppered(s.take(n - 1)).push(upper(s[n - 1])));
    } else {
        assert(compact_before(s, 0) =~= uppered(s.take(0)));
    }
}

proof fn lemma_compact_parts(before: Seq<char>, written: Seq<char>, after: Seq<char>, word: Seq<char>)
    requires
        is_in_any_case(written, word),
        forall|i: int| 0 <= i < word.len() ==> 65 <= (#[trigger] word[i]) as int <= 90,
    ensures
        compact(before + written + after) == compact(before) + word + compact(after),
        text::holds(compact(before + written + after), word),
{
    lemma_in_any_case(written, word);
    lemma_compact_word(written, written.len() as int);
    assert(written.take(written.len() as int) =~= written);
    lemma_compact_sum(before + written, after, after.len() as int);
    lemma_compact_sum(before, written, written.len() as int);
    let whole = compact(before) + word + compact(after);
    let at = compact(before).len() as int;
    assert(whole.subrange(at, at + word.len()) =~= word);
    assert(text::occurs_at(whole, word, at));
}

/// Some words give a credential away even where they are run together with others: a password and
/// the keys of an interface, of an access and of a pair anywhere in a name, and a token, a secret,
/// credentials and a cookie at its end.
pub proof fn credential_is_sensitive_run_together(
    name: &str,
    before: Seq<char>,
    written: Seq<char>,
    after: Seq<char>,
    word: Seq<char>,
    result: bool,
)
    requires
        call_ensures(is_sensitive_env_name, (name,), result),
        is_in_any_case(written, word),
        name@ == before + written + after,
        word == "PASSWORD"@ || word == "APIKEY"@ || word == "ACCESSKEY"@
            || word == "PRIVATEKEY"@ || ({
            &&& word == "TOKEN"@ || word == "SECRET"@ || word == "CREDENTIAL"@
                || word == "CREDENTIALS"@ || word == "COOKIE"@
            &&& forall|i: int| 0 <= i < after.len() ==> !is_word_number((#[trigger] after[i]) as int)
        }),
    ensures
        result,
{
    lemma_literal_words(word);
    lemma_compact_parts(before, written, after, word);
    if !(word == "PASSWORD"@ || word == "APIKEY"@ || word == "ACCESSKEY"@ || word == "PRIVATEKEY"@) {
        lemma_compact_separator(after, after.len() as int);
        let whole = compact(name@);
        assert(whole =~= compact(before) + word);
        assert(word.is_suffix_of(whole));
    }
}

proof fn lemma_compact_separator(s: Seq<char>, n: int)
    requires
        0 <= n <= s.len(),
        forall|i: int| 0 <= i < s.len() ==> !is_alphanumeric(#[trigger] s[i]),
    ensures
        compact_before(s, n) == Seq::<char>::empty(),
    decreases n,
{
    if n > 0 {
        lemma_compact_separator(s, n - 1);
    }
}

/// The parts of a key may stand apart: the key of an interface, of an access and of a pair is found
/// with anything that is neither a letter nor a digit between its parts.
pub proof fn key_is_sensitive_in_parts(
    name: &str,
    before: Seq<char>,
    kind: Seq<char>,
    between: Seq<char>,
    after: Seq<char>,
    result: bool,
)
    requires
        call_ensures(is_sensitive_env_name, (name,), result),
        kind == "API"@ || kind == "ACCESS"@ || kind == "PRIVATE"@,
        forall|i: int| 0 <= i < between.len() ==> !is_word_number((#[trigger] between[i]) as int),
        name@ == before + kind + between + "KEY"@ + after,
    ensures
        result,
{
    reveal_strlit("API");
    reveal_strlit("ACCESS");
    reveal_strlit("PRIVATE");
    reveal_strlit("KEY");
    reveal_strlit("APIKEY");
    reveal_strlit("ACCESSKEY");
    reveal_strlit("PRIVATEKEY");
    let word = kind + "KEY"@;
    assert(word =~= "APIKEY"@ || word =~= "ACCESSKEY"@ || word =~= "PRIVATEKEY"@);
    let head = before + kind + between;
    assert(head + "KEY"@ + after == name@);
    lemma_compact_parts(head, "KEY"@, after, "KEY"@);
    lemma_compact_parts(before, kind, between, kind);
    lemma_compact_separator(between, between.len() as int);
    let whole = compact(name@);
    let at = compact(before).len() as int;
    assert(whole =~= compact(before) + word + compact(after));
    assert(whole.subrange(at, at + word.len()) =~= word);
    assert(text::occurs_at(whole, word, at));
}

proof fn lemma_word_between(head: Seq<char>, place: Seq<char>, tail: Seq<char>)
    requires
        0 < place.len(),
        forall|i: int| 0 <= i < place.len() ==> 65 <= (#[trigger] place[i]) as int <= 90,
        head.len() > 0 && head.last() == '_',
        tail.len() > 0 && tail[0] == '_',
    ensures
        name_words(head + place + tail).contains(place),
{
    let name = head + place + tail;
    let from = head.len() as int;
    let to = (head.len() + place.len()) as int;
    lemma_in_any_case(place, place);
    assert(name.subrange(from, to) =~= place);
    assert forall|i: int| from <= i < to implies is_alphanumeric(#[trigger] name[i]) by {
        assert(name[i] == place[i - from]);
    }
    lemma_run_is_a_word(name, from, to);
}

proof fn lemma_database_place(name: Seq<char>, database: Seq<char>, place: Seq<char>)
    requires
        database == "DATABASE"@ || database == "REDIS"@ || database == "MONGO"@ || database == "POSTGRES"@,
        place == "URL"@ || place == "URI"@ || place == "CONNECTIONSTRING"@,
        text::holds(compact(name), database),
        name_words(name).contains(place),
    ensures
        is_sensitive(name),
{
}

/// The name of a database makes a name sensitive together with a word behind it for a place to
/// connect to.
pub proof fn database_place_is_sensitive(
    name: &str,
    before: Seq<char>,
    database: Seq<char>,
    between: Seq<char>,
    place: Seq<char>,
    after: Seq<char>,
    result: bool,
)
    requires
        call_ensures(is_sensitive_env_name, (name,), result),
        database == "DATABASE"@ || database == "REDIS"@ || database == "MONGO"@ || database == "POSTGRES"@,
        place == "URL"@ || place == "URI"@ || place == "CONNECTIONSTRING"@,
        name@ == before + database + between + "_"@ + place + "_"@ + after,
    ensures
        result,
{
    reveal_strlit("_");
    lemma_literal_words(database);
    lemma_literal_words(place);
    let rest = between + "_"@ + place + "_"@ + after;
    assert(name@ =~= before + database + rest);
    lemma_compact_parts(before, database, rest, database);
    let head = before + database + between + "_"@;
    let tail = "_"@ + after;
    assert(name@ =~= head + place + tail);
    lemma_word_between(head, place, tail);
    lemma_database_place(name@, database, place);
}

/// The word for the place may as well stand before the name of the database.
pub proof fn place_of_database_is_sensitive(
    name: &str,
    before: Seq<char>,
    database: Seq<char>,
    between: Seq<char>,
    place: Seq<char>,
    after: Seq<char>,
    result: bool,
)
    requires
        call_ensures(is_sensitive_env_name, (name,), result),
        database == "DATABASE"@ || database == "REDIS"@ || database == "MONGO"@ || database == "POSTGRES"@,
        place == "URL"@ || place == "URI"@ || place == "CONNECTIONSTRING"@,
        name@ == before + "_"@ + place + "_"@ + between + database + after,
    ensures
        result,
{
    reveal_strlit("_");
    lemma_literal_words(database);
    lemma_literal_words(place);
    let rest = before + "_"@ + place + "_"@ + between;
    assert(name@ =~= rest + database + after);
    lemma_compact_parts(rest, database, after, database);
    let head = before + "_"@;
    let tail = "_"@ + between + database + after;
    assert(name@ =~= head + place + tail);
    lemma_word_between(head, place, tail);
    lemma_database_place(name@, database, place);
}

proof fn lemma_words_in_compact(name: Seq<char>, n: int, k: int)
    requires
        0 <= n <= name.len(),
        0 <= k < words_before(name, n).0.len(),
    ensures
        text::holds(compact_before(name, n), words_before(name, n).0[k]),
    decreases n,
{
    if n > 0 {
        let (words, open) = words_before(name, n - 1);
        let short = compact_before(name, n - 1);
        let long = compact_before(name, n);
        let word = words_before(name, n).0[k];
        lemma_open_in_compact(name, n - 1);
        if k < words.len() {
            lemma_words_in_compact(name, n - 1, k);
            let i = choose|i: int| text::occurs_at(short, word, i);
            assert(long.subrange(i, i + word.len()) =~= short.subrange(i, i + word.len()));
            assert(text::occurs_at(long, word, i));
        } else {
            assert(long.subrange(long.len() - word.len(), long.len() as int) =~= word);
            assert(text::occurs_at(long, word, long.len() - word.len()));
        }
    }
}

proof fn lemma_open_in_compact(name: Seq<char>, n: int)
    requires
        0 <= n <= name.len(),
    ensures
        words_before(name, n).1.is_suffix_of(compact_before(name, n)),
    decreases n,
{
    if n > 0 {
        lemma_open_in_compact(name, n - 1);
        let open = words_before(name, n - 1).1;
        let short = compact_before(name, n - 1);
        let long = compact_before(name, n);
        let grown = words_before(name, n).1;
        assert(long.subrange(long.len() - grown.len(), long.len() as int) =~= grown) by {
            assert(short.subrange(short.len() - open.len(), short.len() as int) =~= open);
        }
    }
}

proof fn lemma_word_in_compact(name: Seq<char>, word: Seq<char>)
    requires
        name_words(name).contains(word),
    ensures
        text::holds(compact(name), word),
{
    let n = name.len() as int;
    let (words, open) = words_before(name, n);
    let k = choose|k: int| 0 <= k < name_words(name).len() && name_words(name)[k] == word;
    if k < words.len() {
        lemma_words_in_compact(name, n, k);
    } else {
        lemma_open_in_compact(name, n);
        let whole = compact(name);
        assert(whole.subrange(whole.len() - word.len(), whole.len() as int) =~= word);
        assert(text::occurs_at(whole, word, whole.len() - word.len()));
    }
}

proof fn lemma_part_of_part(whole: Seq<char>, part: Seq<char>, inner: Seq<char>, at: int)
    requires
        text::holds(whole, part),
        text::occurs_at(part, inner, at),
    ensures
        text::holds(whole, inner),
{
    let i = choose|i: int| text::occurs_at(whole, part, i);
    assert(whole.subrange(i + at, i + at + inner.len()) =~= part.subrange(at, at + inner.len()));
    assert(text::occurs_at(whole, inner, i + at));
}

proof fn lemma_suffix_is_held(whole: Seq<char>, part: Seq<char>)
    requires
        part.is_suffix_of(whole),
    ensures
        text::holds(whole, part),
{
    assert(text::occurs_at(whole, part, whole.len() - part.len()));
}

/// A name is harmless where its letters and digits, run together in upper case, hold none of the
/// syllables of a credential, and where they do not both name a database and a place to connect to.
pub proof fn other_names_are_harmless(name: &str, result: bool)
    requires
        call_ensures(is_sensitive_env_name, (name,), result),
        !text::holds(compact(name@), "TOKEN"@),
        !text::holds(compact(name@), "SECRET"@),
        !text::holds(compact(name@), "PASS"@),
        !text::holds(compact(name@), "CREDENTIAL"@),
        !text::holds(compact(name@), "AUTH"@),
        !text::holds(compact(name@), "COOKIE"@),
        !text::holds(compact(name@), "DSN"@),
        !text::holds(compact(name@), "APIKEY"@),
        !text::holds(compact(name@), "ACCESSKEY"@),
        !text::holds(compact(name@), "PRIVATEKEY"@),
        ({
            &&& !text::holds(compact(name@), "URL"@)
            &&& !text::holds(compact(name@), "URI"@)
            &&& !text::holds(compact(name@), "CONNECTIONSTRING"@)
        }) || ({
            &&& !text::holds(compact(name@), "DATABASE"@)
            &&& !text::holds(compact(name@), "REDIS"@)
            &&& !text::holds(compact(name@), "MONGO"@)
            &&& !text::holds(compact(name@), "POSTGRES"@)
        }),
    ensures
        !result,
{
    let whole = compact(name@);
    let words = name_words(name@);
    reveal_strlit("ACCESSKEY");
    reveal_strlit("APIKEY");
    reveal_strlit("AUTH");
    reveal_strlit("AUTHORIZATION");
    reveal_strlit("CONNECTIONSTRING");
    reveal_strlit("COOKIE");
    reveal_strlit("CREDENTIAL");
    reveal_strlit("CREDENTIALS");
    reveal_strlit("DSN");
    reveal_strlit("MONGO");
    reveal_strlit("MONGODB");
    reveal_strlit("OAUTH");
    reveal_strlit("PASS");
    reveal_strlit("PASSPHRASE");
    reveal_strlit("PASSWD");
    reveal_strlit("PASSWORD");
    reveal_strlit("POSTGRES");
    reveal_strlit("POSTGRESQL");
    reveal_strlit("PRIVATEKEY");
    reveal_strlit("SECRET");
    reveal_strlit("TOKEN");
    reveal_strlit("URI");
    reveal_strlit("URL");
    if words.contains("TOKEN"@) || text::holds(whole, "TOKEN"@) || "TOKEN"@.is_suffix_of(whole) {
        if words.contains("TOKEN"@) {
            lemma_word_in_compact(name@, "TOKEN"@);
        }
        if "TOKEN"@.is_suffix_of(whole) {
            lemma_suffix_is_held(whole, "TOKEN"@);
        }
    }
    if words.contains("SECRET"@) || text::holds(whole, "SECRET"@) || "SECRET"@.is_suffix_of(whole) {
        if words.contains("SECRET"@) {
            lemma_word_in_compact(name@, "SECRET"@);
        }
        if "SECRET"@.is_suffix_of(whole) {
            lemma_suffix_is_held(whole, "SECRET"@);
        }
    }
    if words.contains("PASSWORD"@) || text::holds(whole, "PASSWORD"@) || "PASSWORD"@.is_suffix_of(whole) {
        if words.contains("PASSWORD"@) {
            lemma_word_in_compact(name@, "PASSWORD"@);
        }
        if "PASSWORD"@.is_suffix_of(whole) {
            lemma_suffix_is_held(whole, "PASSWORD"@);
        }
        assert("PASSWORD"@.subrange(0, 4) =~= "PASS"@);
        lemma_part_of_part(whole, "PASSWORD"@, "PASS"@, 0);
    }
    if words.contains("PASSWD"@) || text::holds(whole, "PASSWD"@) || "PASSWD"@.is_suffix_of(whole) {
        if words.contains("PASSWD"@) {
            lemma_word_in_compact(name@, "PASSWD"@);
        }
        if "PASSWD"@.is_suffix_of(whole) {
            lemma_suffix_is_held(whole, "PASSWD"@);
        }
        assert("PASSWD"@.subrange(0, 4) =~= "PASS"@);
        lemma_part_of_part(whole, "PASSWD"@, "PASS"@, 0);
    }
    if words.contains("PASS"@) || text::holds(whole, "PASS"@) || "PASS"@.is_suffix_of(whole) {
        if words.contains("PASS"@) {
            lemma_word_in_compact(name@, "PASS"@);
        }
        if "PASS"@.is_suffix_of(whole) {
            lemma_suffix_is_held(whole, "PASS"@);
        }
    }
    if words.contains("CREDENTIAL"@) || text::holds(whole, "CREDENTIAL"@) || "CREDENTIAL"@.is_suffix_of(whole) {
        if words.contains("CREDENTIAL"@) {
            lemma_word_in_compact(name@, "CREDENTIAL"@);
        }
        if "CREDENTIAL"@.is_suffix_of(whole) {
            lemma_suffix_is_held(whole, "CREDENTIAL"@);
        }
    }
    if words.contains("CREDENTIALS"@) || text::holds(whole, "CREDENTIALS"@) || "CREDENTIALS"@.is_suffix_of(whole) {
        if words.contains("CREDENTIALS"@) {
            lemma_word_in_compact(name@, "CREDENTIALS"@);
        }
        if "CREDENTIALS"@.is_suffix_of(whole) {
            lemma_suffix_is_held(whole, "CREDENTIALS"@);
        }
        assert("CREDENTIALS"@.subrange(0, 10) =~= "CREDENTIAL"@);
        lemma_part_of_part(whole, "CREDENTIALS"@, "CREDENTIAL"@, 0);
    }
    if words.contains("AUTH"@) || text::holds(whole, "AUTH"@) || "AUTH"@.is_suffix_of(whole) {
        if words.contains("AUTH"@) {
            lemma_word_in_compact(name@, "AUTH"@);
        }
        if "AUTH"@.is_suffix_of(whole) {
            lemma_suffix_is_held(whole, "AUTH"@);
        }
    }
    if words.contains("AUTHORIZATION"@) || text::holds(whole, "AUTHORIZATION"@) || "AUTHORIZATION"@.is_suffix_of(whole) {
        if words.contains("AUTHORIZATION"@) {
            lemma_word_in_compact(name@, "AUTHORIZATION"@);
        }
        if "AUTHORIZATION"@.is_suffix_of(whole) {
            lemma_suffix_is_held(whole, "AUTHORIZATION"@);
        }
        assert("AUTHORIZATION"@.subrange(0, 4) =~= "AUTH"@);
        lemma_part_of_part(whole, "AUTHORIZATION"@, "AUTH"@, 0);
    }
    if words.contains("OAUTH"@) || text::holds(whole, "OAUTH"@) || "OAUTH"@.is_suffix_of(whole) {
        if words.contains("OAUTH"@) {
            lemma_word_in_compact(name@, "OAUTH"@);
        }
        if "OAUTH"@.is_suffix_of(whole) {
            lemma_suffix_is_held(whole, "OAUTH"@);
        }
        assert("OAUTH"@.subrange(1, 5) =~= "AUTH"@);
        lemma_part_of_part(whole, "OAUTH"@, "AUTH"@, 1);
    }
    if words.contains("COOKIE"@) || text::holds(whole, "COOKIE"@) || "COOKIE"@.is_suffix_of(whole) {
        if words.contains("COOKIE"@) {
            lemma_word_in_compact(name@, "COOKIE"@);
        }
        if "COOKIE"@.is_suffix_of(whole) {
            lemma_suffix_is_held(whole, "COOKIE"@);
        }
    }
    if words.contains("DSN"@) || text::holds(whole, "DSN"@) || "DSN"@.is_suffix_of(whole) {
        if words.contains("DSN"@) {
            lemma_word_in_compact(name@, "DSN"@);
        }
        if "DSN"@.is_suffix_of(whole) {
            lemma_suffix_is_held(whole, "DSN"@);
        }
    }
    if words.contains("PASSPHRASE"@) || text::holds(whole, "PASSPHRASE"@) || "PASSPHRASE"@.is_suffix_of(whole) {
        if words.contains("PASSPHRASE"@) {
            lemma_word_in_compact(name@, "PASSPHRASE"@);
        }
        if "PASSPHRASE"@.is_suffix_of(whole) {
            lemma_suffix_is_held(whole, "PASSPHRASE"@);
        }
        assert("PASSPHRASE"@.subrange(0, 4) =~= "PASS"@);
        lemma_part_of_part(whole, "PASSPHRASE"@, "PASS"@, 0);
    }
    if words.contains("URL"@) {
        lemma_word_in_compact(name@, "URL"@);
    }
    if words.contains("URI"@) {
        lemma_word_in_compact(name@, "URI"@);
    }
    if words.contains("CONNECTIONSTRING"@) {
        lemma_word_in_compact(name@, "CONNECTIONSTRING"@);
    }
    if text::holds(whole, "MONGODB"@) {
        assert("MONGODB"@.subrange(0, 5) =~= "MONGO"@);
        lemma_part_of_part(whole, "MONGODB"@, "MONGO"@, 0);
    }
    if text::holds(whole, "POSTGRESQL"@) {
        assert("POSTGRESQL"@.subrange(0, 8) =~= "POSTGRES"@);
        lemma_part_of_part(whole, "POSTGRESQL"@, "POSTGRES"@, 0);
    }
}

/// The words of a name and the same run together are read off one character after the other: a letter
/// or a digit goes on with the word, in upper case, and anything else ends it.
pub proof fn name_is_read_by_characters(name: Seq<char>, c: char)
    ensures
        compact(name.push(c)) == if is_word_number(c as int) {
            compact(name).push(
                if 97 <= c as int <= 122 {
                    ((c as u32) - 32) as char
                } else {
                    c
                },
            )
        } else {
            compact(name)
        },
        !is_word_number(c as int) ==> name_words(name.push(c)) == name_words(name),
        name_words(Seq::<char>::empty()).len() == 0,
{
    let n = name.len() as int;
    let longer = name.push(c);
    assert(longer =~= name + seq![c]);
    lemma_same_start(name, seq![c], n);
    assert(longer[n] == c);
}

/// A word that only begins like a credential, or has one inside, is none: what counts are whole
/// words, and run together the end of the name or the few words that count anywhere.
pub proof fn part_of_a_word_is_no_credential(name: &str, result: bool)
    requires
        call_ensures(is_sensitive_env_name, (name,), result),
        !name_words(name@).contains("TOKEN"@),
        !name_words(name@).contains("SECRET"@),
        !name_words(name@).contains("PASSWORD"@),
        !name_words(name@).contains("PASSWD"@),
        !name_words(name@).contains("PASS"@),
        !name_words(name@).contains("CREDENTIAL"@),
        !name_words(name@).contains("CREDENTIALS"@),
        !name_words(name@).contains("AUTH"@),
        !name_words(name@).contains("AUTHORIZATION"@),
        !name_words(name@).contains("OAUTH"@),
        !name_words(name@).contains("COOKIE"@),
        !name_words(name@).contains("DSN"@),
        !name_words(name@).contains("PASSPHRASE"@),
        !"TOKEN"@.is_suffix_of(compact(name@)),
        !"SECRET"@.is_suffix_of(compact(name@)),
        !"CREDENTIAL"@.is_suffix_of(compact(name@)),
        !"CREDENTIALS"@.is_suffix_of(compact(name@)),
        !"COOKIE"@.is_suffix_of(compact(name@)),
        !text::holds(compact(name@), "PASSWORD"@),
        !text::holds(compact(name@), "APIKEY"@),
        !text::holds(compact(name@), "ACCESSKEY"@),
        !text::holds(compact(name@), "PRIVATEKEY"@),
        !name_words(name@).contains("URL"@),
        !name_words(name@).contains("URI"@),
        !text::holds(compact(name@), "CONNECTIONSTRING"@),
    ensures
        !result,
{
    if name_words(name@).contains("CONNECTIONSTRING"@) {
        lemma_word_in_compact(name@, "CONNECTIONSTRING"@);
    }
}

} // verus!
