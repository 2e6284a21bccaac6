//! Completion of commands and of their parameters.
use crate::text;
use crate::text::{chars_of, contains, is_whitespace, join2, join3, same, starts_with};
use crate::words;
use crate::words::token_spans;
use vstd::prelude::*;

verus! {

/// A parameter that a command takes.
#[derive(Debug)]
pub struct ParamSpec {
    pub name: String,
    pub value_hint: String,
    pub detail: String,
}

/// A command that can be completed.
#[derive(Debug)]
pub struct CommandSpec {
    pub name: String,
    pub detail: String,
    pub accepts_mode_params: bool,
    pub params: Vec<ParamSpec>,
}

#[derive(Clone, Copy, PartialEq, Eq, Structural, Debug)]
pub enum CompletionKind {
    Command,
    Param,
}

/// A completion.
#[derive(Debug)]
pub struct CompletionItem {
    pub label: String,
    pub insert_text: String,
    pub kind: CompletionKind,
    pub detail: Option<String>,
}

/// The contents of a completion.
pub struct CompletionView {
    pub label: Seq<char>,
    pub insert_text: Seq<char>,
    pub kind: CompletionKind,
    pub detail: Option<Seq<char>>,
}

impl View for CompletionItem {
    type V = CompletionView;

    open spec fn view(&self) -> CompletionView {
        CompletionView {
            label: self.label@,
            insert_text: self.insert_text@,
            kind: self.kind,
            detail: match self.detail {
                Some(detail) => Some(detail@),
                None => None,
            },
        }
    }
}

/// The contents of completions.
pub open spec fn item_views(items: Seq<CompletionItem>) -> Seq<CompletionView> {
    items.map_values(|item: CompletionItem| item@)
}

/// A position in bytes where no character is cut: the last one that is not behind the cursor.
pub open spec fn is_cut(bytes: Seq<u8>, cursor: int, cut: int) -> bool {
    &&& 0 <= cut <= bytes.len()
    &&& cut <= cursor
    &&& vstd::utf8::is_char_boundary(bytes, cut)
    &&& forall|later: int|
        cut < later <= cursor && later <= bytes.len() ==> !(
        #[trigger] vstd::utf8::is_char_boundary(bytes, later))
}

/// The part of an input before a cursor that counts bytes.
pub open spec fn is_before_cursor(input: Seq<char>, cursor: int, part: Seq<char>) -> bool {
    exists|cut: int| #[trigger]
        is_cut(text::utf8(input), cursor, cut) && text::utf8(part) == text::utf8(input).take(cut)
}

/// The part of an input before a cursor that counts bytes. A cursor inside a character counts as
/// standing before it, and one behind the end as standing there.
pub fn prefix_before_cursor(input: &str, cursor: usize) -> (prefix: &str)
    ensures
        is_before_cursor(input@, cursor as int, prefix@),
{
    let length = input.as_bytes().len();
    let ghost bytes = text::utf8(input@);
    let mut cut: usize = if cursor < length {
        cursor
    } else {
        length
    };
    proof {
        vstd::utf8::encode_utf8_valid_utf8(input@);
        vstd::utf8::is_char_boundary_start_end_of_seq(bytes);
    }
    while !input.is_char_boundary(cut)
        invariant
            cut <= length,
            cut <= cursor,
            length == bytes.len(),
            bytes == text::utf8(input@),
            vstd::utf8::is_char_boundary(bytes, 0),
            forall|later: int|
                cut < later <= cursor && later <= bytes.len() ==> !(
                #[trigger] vstd::utf8::is_char_boundary(bytes, later)),
        decreases cut,
    {
        cut = cut - 1;
    }
    let (prefix, _) = input.split_at(cut);
    assert(text::utf8(prefix@) =~= bytes.take(cut as int));
    assert(is_cut(bytes, cursor as int, cut as int));
    prefix
}

/// What separates the parts of an input.
#[derive(Clone, Copy, PartialEq, Eq, Structural, Debug)]
pub enum Separator {
    /// The parenthesis before parameters.
    Parenthesis,
    /// What stands between parameters.
    Parameter,
    /// White space.
    Space,
}

/// A character separates the parts of an input.
pub open spec fn separates(separator: Separator, c: char) -> bool {
    match separator {
        Separator::Parenthesis => c == '(',
        Separator::Parameter => c == ',' || c == ' ' || c == '\t',
        Separator::Space => text::is_space(c),
    }
}

/// The last place before `n` where a separator stands.
pub open spec fn last_separator(s: Seq<char>, separator: Separator, n: int) -> Option<int>
    decreases n,
{
    if n <= 0 || n > s.len() {
        None
    } else if separates(separator, s[n - 1]) {
        Some(n - 1)
    } else {
        last_separator(s, separator, n - 1)
    }
}

fn find_last_separator(chars: &Vec<char>, separator: Separator) -> (place: Option<usize>)
    ensures
        match place {
            Some(i) => i < chars.len() && last_separator(chars@, separator, chars@.len() as int)
                == Some(i as int),
            None => last_separator(chars@, separator, chars@.len() as int).is_none(),
        },
{
    let mut n: usize = chars.len();
    while n > 0
        invariant
            n <= chars.len(),
            last_separator(chars@, separator, chars@.len() as int) == last_separator(
                chars@,
                separator,
                n as int,
            ),
        decreases n,
    {
        let c = chars[n - 1];
        let found = match separator {
            Separator::Parenthesis => c == '(',
            Separator::Parameter => c == ',' || c == ' ' || c == '\t',
            Separator::Space => is_whitespace(c),
        };
        if found {
            return Some(n - 1);
        }
        n = n - 1;
    }
    None
}

/// What stands behind the last separator; everything where there is none.
pub open spec fn last_part(s: Seq<char>, separator: Separator) -> Seq<char> {
    match last_separator(s, separator, s.len() as int) {
        Some(place) => s.skip(place + 1),
        None => s,
    }
}

fn part_behind_last(s: &str, separator: Separator) -> (part: &str)
    ensures
        part@ == last_part(s@, separator),
{
    let chars = chars_of(s);
    match find_last_separator(&chars, separator) {
        Some(place) => {
            let part = s.substring_char(place + 1, chars.len());
            assert(part@ =~= s@.skip(place + 1));
            part
        },
        None => s,
    }
}

/// The first word, or everything where there is none.
pub open spec fn first_word(s: Seq<char>) -> Seq<char> {
    if words::word_spans(s).len() > 0 {
        let span = words::word_spans(s)[0];
        s.subrange(span.0, span.1)
    } else {
        s
    }
}

fn word_or_all(s: &str) -> (word: &str)
    ensures
        word@ == first_word(s@),
{
    let chars = chars_of(s);
    let spans = token_spans(&chars);
    assert(words::spans_view(spans@).len() == spans.len());
    if spans.len() > 0 {
        assert(words::spans_view(spans@)[0] == (spans@[0].0 as int, spans@[0].1 as int));
        s.substring_char(spans[0].0, spans[0].1)
    } else {
        s
    }
}

/// The place of the first command of a name at or behind place `i`.
pub open spec fn command_place(specs: Seq<CommandSpec>, name: Seq<char>, i: int) -> Option<int>
    decreases specs.len() - i,
{
    if i < 0 || i >= specs.len() {
        None
    } else if specs[i].name@ == name {
        Some(i)
    } else {
        command_place(specs, name, i + 1)
    }
}

fn find_command(specs: &Vec<CommandSpec>, name: &str) -> (place: Option<usize>)
    ensures
        match place {
            Some(i) => i < specs.len() && command_place(specs@, name@, 0) == Some(i as int),
            None => command_place(specs@, name@, 0).is_none(),
        },
{
    let mut i: usize = 0;
    while i < specs.len()
        invariant
            i <= specs.len(),
            command_place(specs@, name@, 0) == command_place(specs@, name@, i as int),
        decreases specs.len() - i,
    {
        if same(specs[i].name.as_str(), name) {
            return Some(i);
        }
        i = i + 1;
    }
    None
}

/// The command whose parameters are being written, and the start of the one that is: where the
/// input is a command with an open parenthesis, takes parameters, and no value is being written.
pub open spec fn parameter_prefix(
    specs: Seq<CommandSpec>,
    prefix: Seq<char>,
) -> Option<(int, Seq<char>)> {
    match last_separator(prefix, Separator::Parenthesis, prefix.len() as int) {
        None => None,
        Some(open) => if open == 0 || prefix[0] != ':' {
            None
        } else {
            let params = prefix.skip(open + 1);
            let current = last_part(params, Separator::Parameter);
            match command_place(specs, first_word(prefix.subrange(1, open)), 0) {
                Some(place) => if !specs[place].accepts_mode_params || text::holds(params, ")"@)
                    || text::holds(current, "="@) {
                    None
                } else {
                    Some((place, current))
                },
                None => None,
            }
        },
    }
}

fn mode_param_key_prefix<'a>(specs: &Vec<CommandSpec>, prefix: &'a str) -> (result: Option<
    (usize, &'a str),
>)
    ensures
        match result {
            Some((place, current)) => place < specs.len() && parameter_prefix(specs@, prefix@)
                == Some((place as int, current@)),
            None => parameter_prefix(specs@, prefix@).is_none(),
        },
{
    let chars = chars_of(prefix);
    let open = match find_last_separator(&chars, Separator::Parenthesis) {
        Some(open) => open,
        None => {
            return None;
        },
    };
    if open == 0 || chars[0] != ':' {
        return None;
    }
    let command = word_or_all(prefix.substring_char(1, open));
    let place = match find_command(specs, command) {
        Some(place) => place,
        None => {
            return None;
        },
    };
    if !specs[place].accepts_mode_params {
        return None;
    }
    let params = prefix.substring_char(open + 1, chars.len());
    assert(params@ =~= prefix@.skip(open + 1));
    if contains(params, ")") {
        return None;
    }
    let current = part_behind_last(params, Separator::Parameter);
    if contains(current, "=") {
        return None;
    }
    Some((place, current))
}

/// The completion of a parameter.
pub open spec fn param_item(param: ParamSpec) -> CompletionView {
    CompletionView {
        label: param.name@,
        insert_text: param.name@ + "="@ + param.value_hint@,
        kind: CompletionKind::Param,
        detail: Some(param.detail@),
    }
}

/// The completions of the first `n` parameters that start with a key.
pub open spec fn param_items(params: Seq<ParamSpec>, key: Seq<char>, n: int) -> Seq<CompletionView>
    decreases n,
{
    if n <= 0 || n > params.len() {
        Seq::empty()
    } else if key.is_prefix_of(params[n - 1].name@) {
        param_items(params, key, n - 1).push(param_item(params[n - 1]))
    } else {
        param_items(params, key, n - 1)
    }
}

/// The completion of a command.
pub open spec fn command_item(spec: CommandSpec) -> CompletionView {
    CompletionView {
        label: ":"@ + spec.name@,
        insert_text: ":"@ + spec.name@,
        kind: CompletionKind::Command,
        detail: Some(spec.detail@),
    }
}

/// The completions of the first `n` commands that start with a word.
pub open spec fn command_items(
    specs: Seq<CommandSpec>,
    word: Seq<char>,
    n: int,
) -> Seq<CompletionView>
    decreases n,
{
    if n <= 0 || n > specs.len() {
        Seq::empty()
    } else if word.is_prefix_of(specs[n - 1].name@) {
        command_items(specs, word, n - 1).push(command_item(specs[n - 1]))
    } else {
        command_items(specs, word, n - 1)
    }
}

/// The completions of what stands before the cursor.
pub open spec fn completions(specs: Seq<CommandSpec>, before_cursor: Seq<char>) -> Seq<
    CompletionView,
> {
    let prefix = before_cursor.skip(text::skip_space(before_cursor, 0));
    match parameter_prefix(specs, prefix) {
        Some((place, key)) => param_items(
            specs[place].params@,
            key,
            specs[place].params@.len() as int,
        ),
        None => if prefix.len() > 0 && prefix[0] == ':' {
            command_items(
                specs,
                last_part(prefix.skip(1), Separator::Space),
                specs.len() as int,
            )
        } else {
            Seq::empty()
        },
    }
}

/// Completes what stands before the cursor.
pub fn complete_prefix(specs: &Vec<CommandSpec>, before_cursor: &str) -> (items: Vec<
    CompletionItem,
>)
    ensures
        item_views(items@) == completions(specs@, before_cursor@),
{
    let prefix = text::trim_start(before_cursor);
    let mut items: Vec<CompletionItem> = Vec::new();
    assert(item_views(items@) =~= Seq::<CompletionView>::empty());
    if let Some((place, key)) = mode_param_key_prefix(specs, prefix) {
        let params = &specs[place].params;
        for i in 0..params.len()
            invariant
                item_views(items@) == param_items(params@, key@, i as int),
        {
            let param = &params[i];
            if starts_with(param.name.as_str(), key) {
                let ghost before = items@;
                let item = CompletionItem {
                    label: param.name.clone(),
                    insert_text: join3(param.name.as_str(), "=", param.value_hint.as_str()),
                    kind: CompletionKind::Param,
                    detail: Some(param.detail.clone()),
                };
                items.push(item);
                assert(item_views(items@) =~= item_views(before).push(param_item(*param)));
            }
        }
        return items;
    }
    if starts_with(prefix, ":") {
        proof {
            reveal_strlit(":");
            assert(":"@.len() == 1 && ":"@[0] == ':');
            assert(prefix@.take(1)[0] == prefix@[0]);
        }
        let rest = prefix.substring_char(1, prefix.unicode_len());
        assert(rest@ =~= prefix@.skip(1));
        let word = part_behind_last(rest, Separator::Space);
        for i in 0..specs.len()
            invariant
                item_views(items@) == command_items(specs@, word@, i as int),
        {
            let spec = &specs[i];
            if starts_with(spec.name.as_str(), word) {
                let ghost before = items@;
                let item = CompletionItem {
                    label: join2(":", spec.name.as_str()),
                    insert_text: join2(":", spec.name.as_str()),
                    kind: CompletionKind::Command,
                    detail: Some(spec.detail.clone()),
                };
                items.push(item);
                assert(item_views(items@) =~= item_views(before).push(command_item(*spec)));
            }
        }
        return items;
    }
    proof {
        reveal_strlit(":");
        if prefix@.len() > 0 && prefix@[0] == ':' {
            assert(prefix@.take(1) =~= ":"@);
        }
    }
    items
}

/// Completes an input at a cursor that counts bytes.
pub fn complete_input(specs: &Vec<CommandSpec>, input: &str, cursor: usize) -> (items: Vec<
    CompletionItem,
>)
    ensures
        exists|before_cursor: Seq<char>| #[trigger]
            is_before_cursor(input@, cursor as int, before_cursor) && item_views(items@)
                == completions(specs@, before_cursor),
{
    let prefix = prefix_before_cursor(input, cursor);
    complete_prefix(specs, prefix)
}

proof fn lemma_utf8_concat(a: Seq<char>, b: Seq<char>)
    ensures
        text::utf8(a + b) == text::utf8(a) + text::utf8(b),
    decreases a.len(),
{
    if a.len() == 0 {
        assert(a + b =~= b);
        assert(text::utf8(a) + text::utf8(b) =~= text::utf8(b));
    } else {
        assert((a + b).drop_first() =~= a.drop_first() + b);
        lemma_utf8_concat(a.drop_first(), b);
        assert((a + b)[0] == a[0]);
        assert(text::utf8(a + b) =~= text::utf8(a) + text::utf8(b));
    }
}

proof fn lemma_boundary(a: Seq<char>, b: Seq<char>)
    ensures
        vstd::utf8::is_char_boundary(text::utf8(a + b), text::utf8(a).len() as int),
    decreases a.len(),
{
    let whole = text::utf8(a + b);
    vstd::utf8::encode_utf8_valid_utf8(a + b);
    lemma_utf8_concat(a, b);
    if a.len() == 0 {
    } else {
        assert((a + b)[0] == a[0]);
        assert((a + b).drop_first() =~= a.drop_first() + b);
        vstd::utf8::encode_utf8_first_scalar(a + b);
        let rest = a.drop_first();
        lemma_boundary(rest, b);
        assert(vstd::utf8::pop_first_scalar(whole) =~= text::utf8(rest + b));
        assert(text::utf8(a).len() == vstd::utf8::encode_scalar(a[0] as u32).len() + text::utf8(
            rest,
        ).len());
    }
}

/// What stands before a cursor between two parts is the first one, and everything does before a
/// cursor at the end or behind it.
pub proof fn cursor_cuts_between_characters(
    input: &str,
    before: Seq<char>,
    after: Seq<char>,
    cursor: usize,
    prefix: &str,
)
    requires
        call_ensures(prefix_before_cursor, (input, cursor), prefix),
        input@ == before + after,
        cursor == text::utf8(before).len() || after.len() == 0 && cursor >= text::utf8(before).len(),
    ensures
        prefix@ == before,
{
    let bytes = text::utf8(input@);
    lemma_boundary(before, after);
    lemma_utf8_concat(before, after);
    let at = text::utf8(before).len() as int;
    let cut = choose|cut: int| #[trigger]
        is_cut(bytes, cursor as int, cut) && text::utf8(prefix@) == bytes.take(cut);
    assert(at <= bytes.len());
    assert(cut <= at);
    if cut < at {
        assert(vstd::utf8::is_char_boundary(bytes, at));
    }
    assert(bytes.take(at) =~= text::utf8(before));
    text::lemma_decoded(before);
    text::lemma_decoded(prefix@);
}

proof fn lemma_no_separator(s: Seq<char>, separator: Separator, n: int)
    requires
        0 <= n <= s.len(),
        forall|i: int| 0 <= i < n ==> !separates(separator, #[trigger] s[i]),
    ensures
        last_separator(s, separator, n) is None,
    decreases n,
{
    if n > 0 {
        lemma_no_separator(s, separator, n - 1);
    }
}

proof fn lemma_last_separator(s: Seq<char>, separator: Separator, at: int, n: int)
    requires
        0 <= at < n <= s.len(),
        separates(separator, s[at]),
        forall|i: int| at < i < n ==> !separates(separator, #[trigger] s[i]),
    ensures
        last_separator(s, separator, n) == Some(at),
    decreases n,
{
    if at < n - 1 {
        lemma_last_separator(s, separator, at, n - 1);
    }
}

proof fn lemma_command_offered(specs: Seq<CommandSpec>, word: Seq<char>, n: int, i: int) -> (at: int)
    requires
        0 <= i < n <= specs.len(),
        word.is_prefix_of(specs[i].name@),
    ensures
        0 <= at < command_items(specs, word, n).len(),
        at == command_items(specs, word, i).len(),
        command_items(specs, word, n)[at] == command_item(specs[i]),
    decreases n,
{
    if i == n - 1 {
        command_items(specs, word, i).len() as int
    } else {
        lemma_command_offered(specs, word, n - 1, i)
    }
}

proof fn lemma_offered_command(specs: Seq<CommandSpec>, word: Seq<char>, n: int, at: int) -> (i: int)
    requires
        0 <= n <= specs.len(),
        0 <= at < command_items(specs, word, n).len(),
    ensures
        0 <= i < n,
        word.is_prefix_of(specs[i].name@),
        command_items(specs, word, n)[at] == command_item(specs[i]),
    decreases n,
{
    if at < command_items(specs, word, n - 1).len() {
        lemma_offered_command(specs, word, n - 1, at)
    } else {
        n - 1
    }
}

proof fn lemma_grows(specs: Seq<CommandSpec>, word: Seq<char>, i: int, j: int)
    requires
        0 <= i < j <= specs.len(),
        word.is_prefix_of(specs[i].name@),
    ensures
        command_items(specs, word, i).len() < command_items(specs, word, j).len(),
    decreases j,
{
    if i < j - 1 {
        lemma_grows(specs, word, i, j - 1);
    }
}

proof fn lemma_skips_white_space(s: Seq<char>, i: int, n: int)
    requires
        0 <= i <= n <= s.len(),
        forall|k: int| i <= k < n ==> text::is_space(#[trigger] s[k]),
        n < s.len() ==> !text::is_space(s[n]),
    ensures
        text::skip_space(s, i) == n,
    decreases n - i,
{
    if i < n {
        lemma_skips_white_space(s, i + 1, n);
    }
}

proof fn lemma_no_space(c: char)
    ensures
        c == ':' || c == '(' ==> !text::is_space(c),
        c == ' ' || c == '\t' ==> text::is_space(c),
{
    text::ascii_white_space(c);
}

/// Behind a colon the commands are offered whose names start with the last word, all of them and no
/// others, each with the colon and in the order in which they are known. White space in front does not
/// matter.
pub proof fn commands_are_offered_by_their_start(
    specs: &Vec<CommandSpec>,
    before_cursor: &str,
    items: Vec<CompletionItem>,
    space: Seq<char>,
    head: Seq<char>,
    word: Seq<char>,
    i: int,
    j: int,
    k: int,
)
    requires
        call_ensures(complete_prefix, (specs, before_cursor), items),
        before_cursor@ == space + ":"@ + head + word,
        forall|n: int| 0 <= n < space.len() ==> text::is_space(#[trigger] space[n]),
        head.len() > 0 ==> head.last() == ' ',
        forall|n: int| 0 <= n < head.len() ==> #[trigger] head[n] != '(',
        forall|n: int|
            0 <= n < word.len() ==> #[trigger] word[n] != '(' && !text::is_space(word[n]),
    ensures
        0 <= i < specs@.len() && word.is_prefix_of(specs@[i].name@) ==> exists|at: int|
            0 <= at < items@.len() && (#[trigger] items@[at]).label@ == ":"@ + specs@[i].name@
                && items@[at].insert_text@ == ":"@ + specs@[i].name@ && items@[at].kind
                == CompletionKind::Command && (items@[at].detail matches Some(detail) && detail@
                == specs@[i].detail@),
        0 <= k < items@.len() ==> exists|from: int|
            0 <= from < specs@.len() && word.is_prefix_of((#[trigger] specs@[from]).name@)
                && items@[k].label@ == ":"@ + specs@[from].name@,
        0 <= i < j < specs@.len() && word.is_prefix_of(specs@[i].name@) && word.is_prefix_of(
            specs@[j].name@,
        ) ==> exists|p: int, q: int|
            0 <= p < q < items@.len() && (#[trigger] items@[p]).label@ == ":"@ + specs@[i].name@ && (
            #[trigger] items@[q]).label@ == ":"@ + specs@[j].name@,
{
    reveal_strlit(":");
    lemma_no_space(':');
    lemma_no_space('(');
    lemma_no_space(' ');
    let all = before_cursor@;
    assert(all[space.len() as int] == ':');
    assert forall|n: int| 0 <= n < space.len() implies text::is_space(#[trigger] all[n]) by {
        assert(all[n] == space[n]);
    }
    lemma_skips_white_space(all, 0, space.len() as int);
    let prefix = all.skip(space.len() as int);
    assert(prefix =~= ":"@ + head + word);
    assert forall|n: int| 0 <= n < prefix.len() implies !separates(
        Separator::Parenthesis,
        #[trigger] prefix[n],
    ) by {
        if 1 <= n < 1 + head.len() {
            assert(prefix[n] == head[n - 1]);
        } else if n >= 1 + head.len() {
            assert(prefix[n] == word[n - 1 - head.len()]);
        }
    }
    lemma_no_separator(prefix, Separator::Parenthesis, prefix.len() as int);
    assert(prefix[0] == ':');
    let rest = prefix.skip(1);
    assert(rest =~= head + word);
    assert(last_part(rest, Separator::Space) == word) by {
        if head.len() > 0 {
            let at = head.len() - 1;
            assert(rest[at] == head.last());
            assert forall|n: int| at < n < rest.len() implies !separates(
                Separator::Space,
                #[trigger] rest[n],
            ) by {
                assert(rest[n] == word[n - head.len()]);
            }
            lemma_last_separator(rest, Separator::Space, at, rest.len() as int);
            assert(rest.skip(at + 1) =~= word);
        } else {
            assert(rest =~= word);
            lemma_no_separator(rest, Separator::Space, rest.len() as int);
        }
    }
    let n = specs@.len() as int;
    let views = item_views(items@);
    assert(views == command_items(specs@, word, n));
    assert forall|at: int| 0 <= at < items@.len() implies #[trigger] views[at] == items@[at]@ by {}
    if 0 <= i < n && word.is_prefix_of(specs@[i].name@) {
        let at = lemma_command_offered(specs@, word, n, i);
        assert(items@[at]@ == command_item(specs@[i]));
        assert(items@[at].label@ == ":"@ + specs@[i].name@);
        if i < j < n && word.is_prefix_of(specs@[j].name@) {
            let later = lemma_command_offered(specs@, word, n, j);
            lemma_grows(specs@, word, i, j);
            assert(items@[later]@ == command_item(specs@[j]));
            assert(items@[later].label@ == ":"@ + specs@[j].name@);
        }
    }
    if 0 <= k < items@.len() {
        let from = lemma_offered_command(specs@, word, n, k);
        assert(items@[k]@ == command_item(specs@[from]));
        assert(word.is_prefix_of(specs@[from].name@));
    }
}

/// What does not begin with a colon is not completed: neither text nor nothing.
pub proof fn only_commands_are_completed(
    specs: &Vec<CommandSpec>,
    before_cursor: &str,
    items: Vec<CompletionItem>,
    space: Seq<char>,
    rest: Seq<char>,
)
    requires
        call_ensures(complete_prefix, (specs, before_cursor), items),
        before_cursor@ == space + rest,
        forall|n: int| 0 <= n < space.len() ==> text::is_space(#[trigger] space[n]),
        rest.len() > 0 ==> rest[0] != ':' && !text::is_space(rest[0]),
    ensures
        items@.len() == 0,
{
    let all = before_cursor@;
    assert forall|n: int| 0 <= n < space.len() implies text::is_space(#[trigger] all[n]) by {
        assert(all[n] == space[n]);
    }
    if rest.len() > 0 {
        assert(all[space.len() as int] == rest[0]);
    }
    lemma_skips_white_space(all, 0, space.len() as int);
    assert(all.skip(space.len() as int) =~= rest);
    if rest.len() == 0 {
        lemma_no_separator(rest, Separator::Parenthesis, 0);
    }
    assert(item_views(items@).len() == 0);
}

proof fn lemma_param_offered(params: Seq<ParamSpec>, key: Seq<char>, n: int, i: int) -> (at: int)
    requires
        0 <= i < n <= params.len(),
        key.is_prefix_of(params[i].name@),
    ensures
        0 <= at < param_items(params, key, n).len(),
        param_items(params, key, n)[at] == param_item(params[i]),
    decreases n,
{
    if i == n - 1 {
        param_items(params, key, i).len() as int
    } else {
        lemma_param_offered(params, key, n - 1, i)
    }
}

proof fn lemma_offered_param(params: Seq<ParamSpec>, key: Seq<char>, n: int, at: int) -> (i: int)
    requires
        0 <= n <= params.len(),
        0 <= at < param_items(params, key, n).len(),
    ensures
        0 <= i < n,
        key.is_prefix_of(params[i].name@),
        param_items(params, key, n)[at] == param_item(params[i]),
    decreases n,
{
    if at < param_items(params, key, n - 1).len() {
        lemma_offered_param(params, key, n - 1, at)
    } else {
        n - 1
    }
}

proof fn lemma_first_word(name: Seq<char>, i: int)
    requires
        0 <= i <= name.len(),
        forall|n: int| 0 <= n < name.len() ==> !text::is_space(#[trigger] name[n]),
    ensures
        words::word_end(name, i) == name.len(),
    decreases name.len() - i,
{
    if i < name.len() {
        lemma_first_word(name, i + 1);
    }
}

proof fn lemma_command_place(specs: Seq<CommandSpec>, name: Seq<char>, at: int, i: int)
    requires
        0 <= i <= at < specs.len(),
        specs[at].name@ == name,
        forall|n: int| 0 <= n < at ==> (#[trigger] specs[n]).name@ != name,
    ensures
        command_place(specs, name, i) == Some(at),
    decreases at - i,
{
    if i < at {
        lemma_command_place(specs, name, at, i + 1);
    }
}

proof fn lemma_char_held(s: Seq<char>, c: char)
    ensures
        text::holds(s, seq![c]) <==> s.contains(c),
{
    if s.contains(c) {
        let i = s.index_of(c);
        assert(s.subrange(i, i + 1) =~= seq![c]);
        assert(text::occurs_at(s, seq![c], i));
    }
    if text::holds(s, seq![c]) {
        let i = choose|i: int| text::occurs_at(s, seq![c], i);
        assert(s.subrange(i, i + 1)[0] == s[i]);
        assert(seq![c][0] == c);
    }
}

/// In the open parenthesis of a command that takes parameters those are offered whose names start with
/// the key that is being written, all of them and no others, each with what its value may be. While a
/// value is being written, behind the closed parenthesis, and for a command that takes none, no
/// parameter is.
pub proof fn parameters_are_offered_by_their_start(
    specs: &Vec<CommandSpec>,
    before_cursor: &str,
    items: Vec<CompletionItem>,
    name: Seq<char>,
    head: Seq<char>,
    key: Seq<char>,
    at: int,
    i: int,
    k: int,
)
    requires
        call_ensures(complete_prefix, (specs, before_cursor), items),
        before_cursor@ == ":"@ + name + "("@ + head + key,
        name.len() > 0,
        forall|n: int| 0 <= n < name.len() ==> !text::is_space(#[trigger] name[n]),
        forall|n: int| 0 <= n < head.len() ==> #[trigger] head[n] != '(',
        head.len() > 0 ==> head.last() == ',' || head.last() == ' ',
        forall|n: int|
            0 <= n < key.len() ==> #[trigger] key[n] != '(' && key[n] != ',' && key[n] != ' '
                && key[n] != '\t',
        0 <= at < specs@.len(),
        specs@[at].name@ == name,
        forall|n: int| 0 <= n < at ==> (#[trigger] specs@[n]).name@ != name,
    ensures
        specs@[at].accepts_mode_params && !head.contains(')') && !key.contains(')')
            && !key.contains('=') ==> (0 <= i < specs@[at].params@.len() && key.is_prefix_of(
            specs@[at].params@[i].name@,
        ) ==> exists|p: int|
            0 <= p < items@.len() && (#[trigger] items@[p]).label@ == specs@[at].params@[i].name@
                && items@[p].insert_text@ == specs@[at].params@[i].name@ + "="@
                + specs@[at].params@[i].value_hint@ && items@[p].kind == CompletionKind::Param && (
            items@[p].detail matches Some(detail) && detail@ == specs@[at].params@[i].detail@)),
        specs@[at].accepts_mode_params && !head.contains(')') && !key.contains(')')
            && !key.contains('=') ==> (0 <= k < items@.len() ==> exists|from: int|
            0 <= from < specs@[at].params@.len() && key.is_prefix_of(
                (#[trigger] specs@[at].params@[from]).name@,
            ) && items@[k].label@ == specs@[at].params@[from].name@),
        !specs@[at].accepts_mode_params || head.contains(')') || key.contains(')') || key.contains(
            '=',
        ) ==> (0 <= k < items@.len() ==> items@[k].kind == CompletionKind::Command),
{
    reveal_strlit(":");
    reveal_strlit("(");
    reveal_strlit(")");
    reveal_strlit("=");
    lemma_no_space(':');
    let all = before_cursor@;
    assert(all[0] == ':');
    assert(all.skip(0) =~= all);
    assert(text::skip_space(all, 0) == 0);
    let open = 1 + name.len() as int;
    assert(all[open] == '(');
    assert forall|n: int| open < n < all.len() implies !separates(
        Separator::Parenthesis,
        #[trigger] all[n],
    ) by {
        if n < open + 1 + head.len() {
            assert(all[n] == head[n - open - 1]);
        } else {
            assert(all[n] == key[n - open - 1 - head.len()]);
        }
    }
    lemma_last_separator(all, Separator::Parenthesis, open, all.len() as int);
    let params = all.skip(open + 1);
    assert(params =~= head + key);
    assert(last_part(params, Separator::Parameter) == key) by {
        if head.len() > 0 {
            let last = head.len() - 1;
            assert(params[last] == head.last());
            assert forall|n: int| last < n < params.len() implies !separates(
                Separator::Parameter,
                #[trigger] params[n],
            ) by {
                assert(params[n] == key[n - head.len()]);
            }
            lemma_last_separator(params, Separator::Parameter, last, params.len() as int);
            assert(params.skip(last + 1) =~= key);
        } else {
            assert(params =~= key);
            lemma_no_separator(params, Separator::Parameter, params.len() as int);
        }
    }
    assert(all.subrange(1, open) =~= name);
    lemma_first_word(name, 0);
    assert(!text::is_space(name[0]));
    assert(words::word_spans(name)[0] == (0int, name.len() as int));
    assert(name.subrange(0, name.len() as int) =~= name);
    assert(first_word(name) == name);
    lemma_command_place(specs@, name, at, 0);
    assert(")"@ =~= seq![')']);
    assert("="@ =~= seq!['=']);
    lemma_char_held(params, ')');
    lemma_char_held(key, '=');
    assert(params.contains(')') <==> head.contains(')') || key.contains(')')) by {
        if head.contains(')') {
            assert(params[head.index_of(')')] == ')');
        }
        if key.contains(')') {
            assert(params[head.len() + key.index_of(')')] == ')');
        }
        if params.contains(')') {
            let n = params.index_of(')');
            if n < head.len() {
                assert(head[n] == ')');
            } else {
                assert(key[n - head.len()] == ')');
            }
        }
    }
    let views = item_views(items@);
    assert forall|p: int| 0 <= p < items@.len() implies #[trigger] views[p] == items@[p]@ by {}
    let known = specs@[at].params@;
    if specs@[at].accepts_mode_params && !params.contains(')') && !key.contains('=') {
        assert(parameter_prefix(specs@, all) == Some((at, key)));
        if 0 <= i < known.len() && key.is_prefix_of(known[i].name@) {
            let p = lemma_param_offered(known, key, known.len() as int, i);
            assert(items@[p]@ == param_item(known[i]));
            assert(items@[p].label@ == known[i].name@);
        }
        if 0 <= k < items@.len() {
            let from = lemma_offered_param(known, key, known.len() as int, k);
            assert(items@[k]@ == param_item(known[from]));
            assert(key.is_prefix_of(known[from].name@));
        }
    } else if 0 <= k < items@.len() {
        let word = last_part(all.skip(1), Separator::Space);
        assert(views == command_items(specs@, word, specs@.len() as int));
        let from = lemma_offered_command(specs@, word, specs@.len() as int, k);
        assert(items@[k]@ == command_item(specs@[from]));
    }
}

/// An input is completed at its cursor: what stands behind it does not matter.
pub proof fn completion_looks_before_the_cursor(
    specs: &Vec<CommandSpec>,
    input: &str,
    before: &str,
    after: Seq<char>,
    cursor: usize,
    items: Vec<CompletionItem>,
    alone: Vec<CompletionItem>,
)
    requires
        call_ensures(complete_input, (specs, input, cursor), items),
        call_ensures(complete_prefix, (specs, before), alone),
        input@ == before@ + after,
        cursor == text::utf8(before@).len(),
    ensures
        item_views(items@) == item_views(alone@),
{
    let bytes = text::utf8(input@);
    lemma_boundary(before@, after);
    lemma_utf8_concat(before@, after);
    let part = choose|part: Seq<char>| #[trigger]
        is_before_cursor(input@, cursor as int, part) && item_views(items@) == completions(
            specs@,
            part,
        );
    let cut = choose|cut: int| #[trigger]
        is_cut(bytes, cursor as int, cut) && text::utf8(part) == bytes.take(cut);
    assert(cut <= cursor <= bytes.len());
    if cut < cursor {
        assert(vstd::utf8::is_char_boundary(bytes, cursor as int));
    }
    assert(bytes.take(cursor as int) =~= text::utf8(before@));
    text::lemma_decoded(before@);
    text::lemma_decoded(part);
}

} // verus!
