//! Daemon configuration: command guardrails, aliases, the wrapper rule, and their validation.
use crate::ordered_map;
use crate::ordered_map::OrderedMap;
use crate::paths;
use crate::paths::command_base;
use crate::text;
use crate::text::{
    ascii_digit, blank, chars_of, has_padding, join2, join3, join5, same, starts_with,
};
use crate::words;
use crate::words::{token_spans, word_count};
use vstd::prelude::*;

verus! {

/// Replaces leading words of an input by other text.
#[derive(Clone, Debug)]
pub struct AliasEntry {
    pub from: String,
    pub to: String,
}

/// The aliases, in the order in which they are tried.
#[derive(Clone, Debug)]
pub struct AliasConfig {
    pub entries: Vec<AliasEntry>,
}

impl Default for AliasConfig {
    fn default() -> (config: Self)
        ensures
            config.entries@.len() == 0,
    {
        AliasConfig { entries: Vec::new() }
    }
}

/// The words of the alias are the first words of the input.
pub open spec fn alias_matches(entry: AliasEntry, input: Seq<char>) -> bool {
    words::words(entry.from@).is_prefix_of(words::words(input))
}

/// The input with its first words, as many as the alias has, replaced.
pub open spec fn alias_replaced(entry: AliasEntry, input: Seq<char>) -> Seq<char> {
    let count = words::words(entry.from@).len() as int;
    entry.to@ + input.skip(words::word_spans(input)[count - 1].1)
}

/// The input after the first alias at or behind `i` that matches it; the input itself where
/// none does.
pub open spec fn aliased_from(entries: Seq<AliasEntry>, input: Seq<char>, i: int) -> Seq<char>
    decreases entries.len() - i,
{
    if i < 0 || i >= entries.len() {
        input
    } else if alias_matches(entries[i], input) {
        alias_replaced(entries[i], input)
    } else {
        aliased_from(entries, input, i + 1)
    }
}

/// Inputs that no alias touches: everything where there are no aliases, and commands that start
/// with a colon.
pub open spec fn alias_exempt(entries: Seq<AliasEntry>, input: Seq<char>) -> bool {
    entries.len() == 0 || (input.len() > 0 && input[0] == ':')
}

/// What an input becomes.
pub open spec fn aliased(entries: Seq<AliasEntry>, input: Seq<char>) -> Seq<char> {
    if alias_exempt(entries, input) {
        input
    } else {
        aliased_from(entries, input, 0)
    }
}

/// An alias without words is tried on the input: it would match without a word to replace.
pub open spec fn reaches_wordless_alias(entries: Seq<AliasEntry>, input: Seq<char>) -> bool {
    exists|i: int|
        0 <= i < entries.len() && words::words((#[trigger] entries[i]).from@).len() == 0 && forall|j: int|
            0 <= j < i ==> !alias_matches(#[trigger] entries[j], input)
}

/// One alias is tried before another: it has more words, or as many and the smaller name.
pub open spec fn tried_before(a: AliasEntry, b: AliasEntry) -> bool {
    ||| words::words(a.from@).len() > words::words(b.from@).len()
    ||| words::words(a.from@).len() == words::words(b.from@).len() && ordered_map::before(a.from@, b.from@)
}

fn words_match(
    input: &Vec<char>,
    spans: &Vec<(usize, usize)>,
    pattern: &Vec<char>,
    pattern_spans: &Vec<(usize, usize)>,
) -> (result: bool)
    requires
        words::spans_view(spans@) == words::word_spans(input@),
        words::spans_view(pattern_spans@) == words::word_spans(pattern@),
        forall|k: int| 0 <= k < spans.len() ==> (#[trigger] spans@[k]).0 < spans@[k].1 <= input.len(),
        forall|k: int|
            0 <= k < pattern_spans.len() ==> (#[trigger] pattern_spans@[k]).0 < pattern_spans@[k].1
                <= pattern.len(),
    ensures
        result == words::words(pattern@).is_prefix_of(words::words(input@)),
{
    assert(words::spans_view(spans@).len() == spans.len());
    assert(words::spans_view(pattern_spans@).len() == pattern_spans.len());
    if spans.len() < pattern_spans.len() {
        return false;
    }
    let mut k: usize = 0;
    while k < pattern_spans.len()
        invariant
            k <= pattern_spans.len() <= spans.len(),
            words::words(pattern@).len() == pattern_spans.len(),
            words::words(input@).len() == spans.len(),
            words::spans_view(spans@) == words::word_spans(input@),
            words::spans_view(pattern_spans@) == words::word_spans(pattern@),
            forall|k: int|
                0 <= k < spans.len() ==> (#[trigger] spans@[k]).0 < spans@[k].1 <= input.len(),
            forall|k: int|
                0 <= k < pattern_spans.len() ==> (#[trigger] pattern_spans@[k]).0
                    < pattern_spans@[k].1 <= pattern.len(),
            forall|j: int| 0 <= j < k ==> words::words(pattern@)[j] == words::words(input@)[j],
        decreases pattern_spans.len() - k,
    {
        let (start, end) = spans[k];
        let (pattern_start, pattern_end) = pattern_spans[k];
        let ghost word = words::words(input@)[k as int];
        let ghost pattern_word = words::words(pattern@)[k as int];
        proof {
            assert(words::spans_view(spans@)[k as int] == (start as int, end as int));
            assert(words::spans_view(pattern_spans@)[k as int] == (
                pattern_start as int,
                pattern_end as int,
            ));
            assert(word == input@.subrange(start as int, end as int));
            assert(pattern_word == pattern@.subrange(pattern_start as int, pattern_end as int));
        }
        if end - start != pattern_end - pattern_start {
            assert(words::words(input@).take(words::words(pattern@).len() as int)[k as int] == word);
            return false;
        }
        let mut i: usize = 0;
        while i < end - start
            invariant
                start < end <= input.len(),
                pattern_start < pattern_end <= pattern.len(),
                end - start == pattern_end - pattern_start,
                i <= end - start,
                k < words::words(pattern@).len() <= words::words(input@).len(),
                word == words::words(input@)[k as int],
                pattern_word == words::words(pattern@)[k as int],
                word == input@.subrange(start as int, end as int),
                pattern_word == pattern@.subrange(pattern_start as int, pattern_end as int),
                forall|j: int| 0 <= j < i ==> word[j] == pattern_word[j],
            decreases end - start - i,
        {
            if input[start + i] != pattern[pattern_start + i] {
                assert(word[i as int] != pattern_word[i as int]);
                assert(words::words(input@).take(words::words(pattern@).len() as int)[k as int] == word);
                return false;
            }
            i = i + 1;
        }
        assert(word =~= pattern_word);
        k = k + 1;
    }
    assert(words::words(input@).take(words::words(pattern@).len() as int) =~= words::words(pattern@));
    true
}

impl AliasConfig {
    /// Arranges aliases so that longer ones are tried first, and those of one length by name.
    pub fn from_map(map: &OrderedMap<String>) -> (config: Self)
        ensures
            config.entries@.len() == map.pairs().len(),
            forall|i: int|
                0 <= i < config.entries@.len() ==> map@.contains_key(
                    (#[trigger] config.entries@[i]).from@,
                ) && map@[config.entries@[i].from@]@ == config.entries@[i].to@,
            forall|i: int, j: int|
                0 <= i < j < config.entries@.len() ==> tried_before(
                    #[trigger] config.entries@[i],
                    #[trigger] config.entries@[j],
                ),
    {
        let mut entries: Vec<AliasEntry> = Vec::new();
        let mut i: usize = 0;
        while i < map.len()
            invariant
                i <= map.pairs().len(),
                entries@.len() == i,
                forall|k: int|
                    0 <= k < entries@.len() ==> map@.contains_key((#[trigger] entries@[k]).from@)
                        && map@[entries@[k].from@]@ == entries@[k].to@,
                forall|k: int, m: int|
                    0 <= k < entries@.len() && i <= m < map.pairs().len() ==> ordered_map::before(
                        (#[trigger] entries@[k]).from@,
                        (#[trigger] map.pairs()[m]).0,
                    ),
                forall|k: int, m: int|
                    0 <= k < m < entries@.len() ==> tried_before(
                        #[trigger] entries@[k],
                        #[trigger] entries@[m],
                    ),
            decreases map.pairs().len() - i,
        {
            let (from, to) = map.entry(i);
            let count = word_count(from.as_str());
            let mut at: usize = 0;
            while at < entries.len() && word_count(entries[at].from.as_str()) >= count
                invariant
                    at <= entries.len(),
                    count == words::words(from@).len(),
                    forall|k: int| 0 <= k < at ==> words::words((#[trigger] entries@[k]).from@).len() >= count,
                decreases entries.len() - at,
            {
                at = at + 1;
            }
            let ghost old_entries = entries@;
            let ghost pairs = map.pairs();
            let entry = AliasEntry { from: from.clone(), to: to.clone() };
            proof {
                ordered_map::lemma_as_map(pairs, i as int);
                assert(ordered_map::ordered(pairs));
                assert forall|k: int| at <= k < old_entries.len() implies words::words(
                    (#[trigger] old_entries[k]).from@,
                ).len() < count by {
                    if k > at {
                        assert(tried_before(old_entries[at as int], old_entries[k]));
                    }
                }
                assert forall|k: int| 0 <= k < old_entries.len() implies ordered_map::before(
                    (#[trigger] old_entries[k]).from@,
                    from@,
                ) by {
                    assert(ordered_map::before(old_entries[k].from@, pairs[i as int].0));
                }
            }
            entries.insert(at, entry);
            proof {
                assert forall|k: int, m: int|
                    0 <= k < m < entries@.len() implies tried_before(
                    #[trigger] entries@[k],
                    #[trigger] entries@[m],
                ) by {
                    let ok = if k < at { k } else { k - 1 };
                    let om = if m < at { m } else { m - 1 };
                    if k != at {
                        assert(entries@[k] == old_entries[ok]);
                    }
                    if m != at {
                        assert(entries@[m] == old_entries[om]);
                    }
                }
                assert forall|k: int, m: int|
                    0 <= k < entries@.len() && i + 1 <= m < pairs.len() implies ordered_map::before(
                    (#[trigger] entries@[k]).from@,
                    (#[trigger] pairs[m]).0,
                ) by {
                    let ok = if k < at { k } else { k - 1 };
                    if k == at {
                        assert(ordered_map::before(pairs[i as int].0, pairs[m].0));
                    } else {
                        assert(entries@[k] == old_entries[ok]);
                    }
                }
                assert forall|k: int| 0 <= k < entries@.len() implies map@.contains_key(
                    (#[trigger] entries@[k]).from@,
                ) && map@[entries@[k].from@]@ == entries@[k].to@ by {
                    let ok = if k < at { k } else { k - 1 };
                    if k != at {
                        assert(entries@[k] == old_entries[ok]);
                    }
                }
            }
            i = i + 1;
        }
        AliasConfig { entries }
    }

    /// Tells whether an alias without words would be tried on an input. No such input can be given
    /// to `apply`.
    pub fn meets_wordless_alias(&self, input: &str) -> (result: bool)
        ensures
            result == (!alias_exempt(self.entries@, input@) && reaches_wordless_alias(
                self.entries@,
                input@,
            )),
    {
        let chars = chars_of(input);
        if self.entries.len() == 0 || (chars.len() > 0 && chars[0] == ':') {
            return false;
        }
        let spans = token_spans(&chars);
        for i in 0..self.entries.len()
            invariant
                chars@ == input@,
                !alias_exempt(self.entries@, input@),
                words::spans_view(spans@) == words::word_spans(input@),
                forall|k: int|
                    0 <= k < spans.len() ==> (#[trigger] spans@[k]).0 < spans@[k].1 <= chars.len(),
                forall|j: int|
                    0 <= j < i ==> !alias_matches(#[trigger] self.entries@[j], input@)
                        && words::words(self.entries@[j].from@).len() > 0,
        {
            let pattern = chars_of(self.entries[i].from.as_str());
            let pattern_spans = token_spans(&pattern);
            assert(words::spans_view(pattern_spans@).len() == pattern_spans.len());
            assert(words::words(self.entries@[i as int].from@).len() == pattern_spans.len());
            if pattern_spans.len() == 0 {
                return true;
            }
            if words_match(&chars, &spans, &pattern, &pattern_spans) {
                assert(alias_matches(self.entries@[i as int], input@));
                return false;
            }
        }
        false
    }

    /// Replaces the leading words of an input by the first alias that matches them.
    pub fn apply(&self, input: &str) -> (result: String)
        requires
            alias_exempt(self.entries@, input@) || !reaches_wordless_alias(self.entries@, input@),
        ensures
            result@ == aliased(self.entries@, input@),
    {
        let chars = chars_of(input);
        if self.entries.len() == 0 || (chars.len() > 0 && chars[0] == ':') {
            return input.to_owned();
        }
        let spans = token_spans(&chars);
        let mut i: usize = 0;
        while i < self.entries.len()
            invariant
                chars@ == input@,
                i <= self.entries.len(),
                !alias_exempt(self.entries@, input@),
                !reaches_wordless_alias(self.entries@, input@),
                words::spans_view(spans@) == words::word_spans(input@),
                forall|k: int|
                    0 <= k < spans.len() ==> (#[trigger] spans@[k]).0 < spans@[k].1 <= chars.len(),
                forall|j: int| 0 <= j < i ==> !alias_matches(#[trigger] self.entries@[j], input@),
                aliased(self.entries@, input@) == aliased_from(self.entries@, input@, i as int),
            decreases self.entries.len() - i,
        {
            let entry = &self.entries[i];
            let pattern = chars_of(entry.from.as_str());
            let pattern_spans = token_spans(&pattern);
            assert(words::spans_view(pattern_spans@).len() == pattern_spans.len());
            assert(words::words(entry.from@).len() == pattern_spans.len());
            if words_match(&chars, &spans, &pattern, &pattern_spans) {
                let count = pattern_spans.len();
                assert(count > 0) by {
                    if count == 0 {
                        assert(words::words(self.entries@[i as int].from@).len() == 0);
                    }
                }
                assert(words::words(input@).len() == words::spans_view(spans@).len());
                assert(words::spans_view(spans@).len() == spans.len());
                let suffix_start = spans[count - 1].1;
                assert(words::spans_view(spans@)[count - 1].1 == suffix_start);
                let suffix = input.substring_char(suffix_start, chars.len());
                assert(suffix@ =~= input@.skip(suffix_start as int));
                return join2(entry.to.as_str(), suffix);
            }
            i = i + 1;
        }
        input.to_owned()
    }
}

/// What the default rule says to someone who skips the git hooks.
pub const DEFAULT_GIT_NO_VERIFY_HINT: &'static str =
    "Run the commit normally; if hooks fail, inspect and fix the hook/check or ask before any alternative.";

/// How a command is blocked.
#[derive(Clone, Debug)]
pub enum BlockCommandRule {
    /// Block the command whenever the base name of its program is the rule's name.
    WholeCommand(String),
    /// Block the command when one of its arguments matches one of these literal patterns.
    Args(OrderedMap<String>),
}

/// Hard command guardrails.
///
/// A name matches the exact base name of the program. An argument pattern matches each argument
/// on its own, literally.
#[derive(Clone, Debug)]
pub struct BlockConfig {
    /// From a command name to the rule for it.
    pub commands: OrderedMap<BlockCommandRule>,
    /// From the stem of a versioned command to the hint: `python` stands for `python`, `python3`
    /// and `python3.12`, and not for `python-config`.
    pub versioned_commands: OrderedMap<String>,
}

/// Advisory command guardrails.
#[derive(Clone, Debug)]
pub struct WarnConfig {
    /// From a command name to the advice.
    pub commands: OrderedMap<String>,
}

/// What a guardrail says about a command.
#[derive(Clone, Debug)]
pub enum BlockDecision {
    Block(String),
    Warn(String),
}

/// An argument matches a pattern: it is the pattern, or the pattern with a value behind `=`.
pub open spec fn arg_matches(arg: Seq<char>, pattern: Seq<char>) -> bool {
    arg == pattern || (pattern + "="@).is_prefix_of(arg)
}

/// Whether an argument matches a pattern.
pub fn blocked_arg_matches(arg: &str, pattern: &str) -> (result: bool)
    ensures
        result == arg_matches(arg@, pattern@),
{
    let with_value = join2(pattern, "=");
    same(arg, pattern) || starts_with(arg, with_value.as_str())
}

/// Numbers with dots between them.
pub open spec fn is_version(s: Seq<char>) -> bool {
    &&& s.len() > 0
    &&& text::is_digit(s[0])
    &&& text::is_digit(s.last())
    &&& forall|i: int| 0 <= i < s.len() ==> text::is_digit(#[trigger] s[i]) || s[i] == '.'
    &&& forall|i: int, j: int|
        0 <= i && j == i + 1 && j < s.len() ==> text::is_digit(#[trigger] s[i]) || text::is_digit(
            #[trigger] s[j],
        )
}

/// The program is the stem itself, or the stem with a version behind it.
pub open spec fn is_versioned(base: Seq<char>, stem: Seq<char>) -> bool {
    stem.len() > 0 && (base == stem || stem.is_prefix_of(base) && is_version(
        base.skip(stem.len() as int),
    ))
}

/// Whether a program is a version of a stem.
pub fn versioned_command_matches(base: &str, stem: &str) -> (result: bool)
    ensures
        result == is_versioned(base@, stem@),
{
    if stem.is_empty() {
        return false;
    }
    if same(base, stem) {
        return true;
    }
    if !starts_with(base, stem) {
        return false;
    }
    let chars = chars_of(base);
    let start = stem.unicode_len();
    let ghost suffix = base@.skip(start as int);
    if start >= chars.len() {
        return false;
    }
    if !ascii_digit(chars[start]) || !ascii_digit(chars[chars.len() - 1]) {
        assert(suffix[0] == base@[start as int]);
        assert(suffix.last() == base@[base@.len() - 1]);
        return false;
    }
    let mut i: usize = start;
    while i < chars.len()
        invariant
            chars@ == base@,
            start == stem@.len(),
            start <= i <= chars.len(),
            start < chars.len(),
            base@ != stem@,
            stem@.is_prefix_of(base@),
            suffix == base@.skip(start as int),
            text::is_digit(suffix[0]),
            text::is_digit(suffix.last()),
            forall|k: int|
                0 <= k < i - start ==> text::is_digit(#[trigger] suffix[k]) || suffix[k] == '.',
            forall|k: int, j: int|
                0 <= k && j == k + 1 && j < i - start ==> text::is_digit(#[trigger] suffix[k])
                    || text::is_digit(#[trigger] suffix[j]),
        decreases chars.len() - i,
    {
        let c = chars[i];
        assert(suffix[i - start] == c);
        if !ascii_digit(c) {
            if c != '.' {
                return false;
            }
            if i > start && !ascii_digit(chars[i - 1]) {
                assert(suffix[i - start - 1] == base@[i - 1]);
                return false;
            }
            assert(i > start ==> suffix[i - start - 1] == base@[i - 1]);
        }
        i = i + 1;
    }
    true
}

/// The message for a blocked command.
pub open spec fn command_reason(command: Seq<char>, hint: Seq<char>) -> Seq<char> {
    "blocked: `"@ + command + "` is forbidden by daemon config\n  hint: "@ + hint
        + "\n  (see [block.commands] in daemon.toml)"@
}

/// The message for a blocked argument.
pub open spec fn arg_reason(command: Seq<char>, pattern: Seq<char>, hint: Seq<char>) -> Seq<char> {
    command_reason(command + " "@ + pattern, hint)
}

/// The hint of the first pattern at or behind place `k` that an argument matches, with the pattern.
pub open spec fn first_pattern(
    rules: Seq<(Seq<char>, String)>,
    arg: Seq<char>,
    k: int,
) -> Option<(Seq<char>, Seq<char>)>
    decreases rules.len() - k,
{
    if k < 0 || k >= rules.len() {
        None
    } else if arg_matches(arg, rules[k].0) {
        Some((rules[k].0, rules[k].1@))
    } else {
        first_pattern(rules, arg, k + 1)
    }
}

/// The message for the first argument at or behind place `i` that a pattern matches.
pub open spec fn first_blocked_arg(
    command: Seq<char>,
    argv: Seq<String>,
    rules: Seq<(Seq<char>, String)>,
    i: int,
) -> Option<Seq<char>>
    decreases argv.len() - i,
{
    if i < 0 || i >= argv.len() {
        None
    } else {
        match first_pattern(rules, argv[i]@, 0) {
            Some((pattern, hint)) => Some(arg_reason(command, pattern, hint)),
            None => first_blocked_arg(command, argv, rules, i + 1),
        }
    }
}

/// The message for the first stem at or behind place `k` of which the program is a version.
pub open spec fn first_versioned(
    command: Seq<char>,
    stems: Seq<(Seq<char>, String)>,
    k: int,
) -> Option<Seq<char>>
    decreases stems.len() - k,
{
    if k < 0 || k >= stems.len() {
        None
    } else if is_versioned(paths::base_name(command), stems[k].0) {
        Some(command_reason(command, stems[k].1@))
    } else {
        first_versioned(command, stems, k + 1)
    }
}

impl BlockConfig {
    /// Why a command line is blocked, if it is.
    ///
    /// A rule under the exact name decides alone; only a command without one is held against the
    /// versioned stems.
    pub open spec fn reason(&self, argv: Seq<String>) -> Option<Seq<char>> {
        if argv.len() == 0 {
            None
        } else {
            let command = argv[0]@;
            let base = paths::base_name(command);
            if self.commands@.contains_key(base) {
                match self.commands@[base] {
                    BlockCommandRule::WholeCommand(hint) => Some(command_reason(command, hint@)),
                    BlockCommandRule::Args(rules) => first_blocked_arg(
                        command,
                        argv,
                        rules.pairs(),
                        1,
                    ),
                }
            } else {
                first_versioned(command, self.versioned_commands.pairs(), 0)
            }
        }
    }

    fn command_block_reason(command: &str, hint: &str) -> (reason: String)
        ensures
            reason@ == command_reason(command@, hint@),
    {
        join5(
            "blocked: `",
            command,
            "` is forbidden by daemon config\n  hint: ",
            hint,
            "\n  (see [block.commands] in daemon.toml)",
        )
    }

    fn arg_block_reason(command: &str, pattern: &str, hint: &str) -> (reason: String)
        ensures
            reason@ == arg_reason(command@, pattern@, hint@),
    {
        let subject = join3(command, " ", pattern);
        Self::command_block_reason(subject.as_str(), hint)
    }

    /// Decides whether a command line is blocked.
    pub fn check(&self, command_line: &[String]) -> (result: Option<BlockDecision>)
        ensures
            match result {
                Some(BlockDecision::Block(message)) => self.reason(command_line@) == Some(message@),
                Some(BlockDecision::Warn(_)) => false,
                None => self.reason(command_line@).is_none(),
            },
    {
        if command_line.len() == 0 {
            return None;
        }
        let command = command_line[0].as_str();
        let base = command_base(command);
        if let Some(rule) = self.commands.get(base) {
            match rule {
                BlockCommandRule::WholeCommand(hint) => {
                    return Some(
                        BlockDecision::Block(Self::command_block_reason(command, hint.as_str())),
                    );
                },
                BlockCommandRule::Args(rules) => {
                    let ghost pairs = rules.pairs();
                    let mut i: usize = 1;
                    while i < command_line.len()
                        invariant
                            1 <= i <= command_line.len(),
                            pairs == rules.pairs(),
                            command@ == command_line@[0]@,
                            self.reason(command_line@) == first_blocked_arg(
                                command@,
                                command_line@,
                                pairs,
                                i as int,
                            ),
                        decreases command_line.len() - i,
                    {
                        let arg = command_line[i].as_str();
                        let mut k: usize = 0;
                        while k < rules.len()
                            invariant
                                k <= pairs.len(),
                                pairs == rules.pairs(),
                                1 <= i < command_line.len(),
                                arg@ == command_line@[i as int]@,
                                command@ == command_line@[0]@,
                                self.reason(command_line@) == first_blocked_arg(
                                    command@,
                                    command_line@,
                                    pairs,
                                    i as int,
                                ),
                                first_pattern(pairs, arg@, 0) == first_pattern(
                                    pairs,
                                    arg@,
                                    k as int,
                                ),
                            decreases pairs.len() - k,
                        {
                            let (pattern, hint) = rules.entry(k);
                            if blocked_arg_matches(arg, pattern.as_str()) {
                                return Some(
                                    BlockDecision::Block(
                                        Self::arg_block_reason(
                                            command,
                                            pattern.as_str(),
                                            hint.as_str(),
                                        ),
                                    ),
                                );
                            }
                            k = k + 1;
                        }
                        i = i + 1;
                    }
                    return None;
                },
            }
        }
        let ghost stems = self.versioned_commands.pairs();
        let mut k: usize = 0;
        while k < self.versioned_commands.len()
            invariant
                k <= stems.len(),
                stems == self.versioned_commands.pairs(),
                base@ == paths::base_name(command@),
                self.reason(command_line@) == first_versioned(command@, stems, k as int),
            decreases stems.len() - k,
        {
            let (stem, hint) = self.versioned_commands.entry(k);
            if versioned_command_matches(base, stem.as_str()) {
                return Some(
                    BlockDecision::Block(Self::command_block_reason(command, hint.as_str())),
                );
            }
            k = k + 1;
        }
        None
    }
}

impl WarnConfig {
    /// The advice for a command line, if there is any.
    pub open spec fn advice(&self, argv: Seq<String>) -> Option<Seq<char>> {
        if argv.len() > 0 && self.commands@.contains_key(paths::base_name(argv[0]@)) {
            Some(self.commands@[paths::base_name(argv[0]@)]@)
        } else {
            None
        }
    }

    /// Looks up the advice for a command line.
    pub fn check(&self, command_line: &[String]) -> (result: Option<BlockDecision>)
        ensures
            match result {
                Some(BlockDecision::Warn(message)) => self.advice(command_line@) == Some(message@),
                Some(BlockDecision::Block(_)) => false,
                None => self.advice(command_line@).is_none(),
            },
    {
        if command_line.len() == 0 {
            return None;
        }
        let base = command_base(command_line[0].as_str());
        match self.commands.get(base) {
            Some(hint) => Some(BlockDecision::Warn(hint.clone())),
            None => None,
        }
    }
}

impl Default for WarnConfig {
    fn default() -> (config: Self)
        ensures
            config.commands@ == Map::<Seq<char>, String>::empty(),
            config.commands.pairs().len() == 0,
    {
        WarnConfig { commands: OrderedMap::new() }
    }
}

/// The argument rules of a command, if the whole of it is not blocked.
pub open spec fn rule_patterns(rule: BlockCommandRule) -> Option<Map<Seq<char>, String>> {
    match rule {
        BlockCommandRule::WholeCommand(_) => None,
        BlockCommandRule::Args(rules) => Some(rules@),
    }
}

/// Rules that hold the one pattern `--no-verify` with the default hint.
pub open spec fn is_default_git_rule(rule: BlockCommandRule) -> bool {
    match rule_patterns(rule) {
        Some(patterns) => patterns.dom() == set!["--no-verify"@] && patterns["--no-verify"@]@
            == DEFAULT_GIT_NO_VERIFY_HINT@,
        None => false,
    }
}

fn default_git_rule() -> (rule: BlockCommandRule)
    ensures
        is_default_git_rule(rule),
{
    let mut rules: OrderedMap<String> = OrderedMap::new();
    let _ = rules.insert("--no-verify".to_owned(), DEFAULT_GIT_NO_VERIFY_HINT.to_owned());
    assert(rules@.dom() =~= set!["--no-verify"@]);
    BlockCommandRule::Args(rules)
}

/// The built-in rules: git commits do not skip their hooks.
pub fn default_block_commands() -> (commands: OrderedMap<BlockCommandRule>)
    ensures
        commands@.dom() == set!["git"@],
        is_default_git_rule(commands@["git"@]),
{
    let mut commands: OrderedMap<BlockCommandRule> = OrderedMap::new();
    let _ = commands.insert("git".to_owned(), default_git_rule());
    assert(commands@.dom() =~= set!["git"@]);
    commands
}

impl Default for BlockConfig {
    fn default() -> (config: Self)
        ensures
            config.commands@.dom() == set!["git"@],
            is_default_git_rule(config.commands@["git"@]),
            config.versioned_commands.pairs().len() == 0,
    {
        BlockConfig {
            commands: default_block_commands(),
            versioned_commands: OrderedMap::new(),
        }
    }
}

/// The git rule after the built-in one was merged into it: a rule for the whole command stands,
/// and argument rules gain the built-in pattern unless they say something about it.
pub open spec fn merged_git_rule(before: BlockCommandRule, after: BlockCommandRule) -> bool {
    match before {
        BlockCommandRule::WholeCommand(hint) => after == before,
        BlockCommandRule::Args(rules) => {
            &&& rule_patterns(after).is_some()
            &&& {
                let patterns = rule_patterns(after).unwrap();
                if rules@.contains_key("--no-verify"@) {
                    patterns == rules@
                } else {
                    &&& patterns.dom() == rules@.dom().insert("--no-verify"@)
                    &&& patterns["--no-verify"@]@ == DEFAULT_GIT_NO_VERIFY_HINT@
                    &&& forall|name: Seq<char>|
                        rules@.contains_key(name) ==> #[trigger] patterns[name] == rules@[name]
                }
            }
        },
    }
}

impl BlockConfig {
    /// Merges the built-in rules into configured ones.
    pub fn ensure_defaults(&mut self)
        ensures
            final(self).versioned_commands == old(self).versioned_commands,
            final(self).commands@.dom() == old(self).commands@.dom().insert("git"@),
            forall|name: Seq<char>|
                name != "git"@ && old(self).commands@.contains_key(name)
                    ==> #[trigger] final(self).commands@[name] == old(self).commands@[name],
            if old(self).commands@.contains_key("git"@) {
                merged_git_rule(old(self).commands@["git"@], final(self).commands@["git"@])
            } else {
                is_default_git_rule(final(self).commands@["git"@])
            },
    {
        let ghost commands = self.commands@;
        match self.commands.insert("git".to_owned(), default_git_rule()) {
            Some(BlockCommandRule::WholeCommand(hint)) => {
                let _ = self.commands.insert(
                    "git".to_owned(),
                    BlockCommandRule::WholeCommand(hint),
                );
            },
            Some(BlockCommandRule::Args(rules)) => {
                let mut rules = rules;
                rules.insert_if_absent(
                    "--no-verify".to_owned(),
                    DEFAULT_GIT_NO_VERIFY_HINT.to_owned(),
                );
                let _ = self.commands.insert("git".to_owned(), BlockCommandRule::Args(rules));
            },
            None => {},
        }
        assert(self.commands@.dom() =~= commands.dom().insert("git"@));
    }
}

/// Wraps allowed programs in another program.
///
/// The wrapper is idempotent: a program that already is the wrapper is left alone.
#[derive(Clone, Debug)]
pub struct WrapperConfig {
    pub enabled: bool,
    pub binary: String,
    pub allowlist: WrapperAllowlist,
}

/// The programs that may be wrapped, by base name.
#[derive(Clone, Debug)]
pub struct WrapperAllowlist {
    pub commands: Vec<String>,
}

impl Default for WrapperAllowlist {
    fn default() -> (allowlist: Self)
        ensures
            allowlist.commands@.len() == 0,
    {
        WrapperAllowlist { commands: Vec::new() }
    }
}

impl Default for WrapperConfig {
    fn default() -> (config: Self)
        ensures
            !config.enabled,
            config.binary@.len() == 0,
            config.allowlist.commands@.len() == 0,
    {
        WrapperConfig {
            enabled: false,
            binary: String::new(),
            allowlist: WrapperAllowlist::default(),
        }
    }
}

impl WrapperAllowlist {
    /// Whether the base name of a program is on the list.
    pub fn matches(&self, program: &str) -> (result: bool)
        ensures
            result == text::texts(self.commands@).contains(paths::base_name(program@)),
    {
        let base = command_base(program);
        for i in 0..self.commands.len()
            invariant
                base@ == paths::base_name(program@),
                forall|j: int| 0 <= j < i ==> text::texts(self.commands@)[j] != base@,
        {
            assert(text::texts(self.commands@)[i as int] == self.commands@[i as int]@);
            if same(self.commands[i].as_str(), base) {
                return true;
            }
        }
        false
    }
}

impl WrapperConfig {
    /// Why the wrapper section is refused, if it is.
    pub open spec fn fault(&self, path: Seq<char>) -> Option<Seq<char>> {
        if text::is_padded(self.binary@) {
            Some(
                "wrapper.binary in "@ + path
                    + " must not have leading or trailing whitespace"@,
            )
        } else if self.enabled && self.binary@.len() == 0 {
            Some("wrapper.enabled is true in "@ + path + " but wrapper.binary is empty"@)
        } else {
            None
        }
    }

    /// Checks the wrapper section.
    pub fn validate(&self, path: &str) -> (result: Result<(), String>)
        ensures
            match result {
                Ok(()) => self.fault(path@).is_none(),
                Err(message) => self.fault(path@) == Some(message@),
            },
    {
        if has_padding(self.binary.as_str()) {
            return Err(
                join3("wrapper.binary in ", path, " must not have leading or trailing whitespace"),
            );
        }
        if self.enabled && self.binary.as_str().is_empty() {
            return Err(
                join3("wrapper.enabled is true in ", path, " but wrapper.binary is empty"),
            );
        }
        Ok(())
    }

    /// The wrapper applies to a program: it is switched on (by the override where one is given),
    /// the program does not run in the foreground, the wrapper has a proper name that is not the
    /// program's own, and the program is on the list.
    pub open spec fn wraps(
        &self,
        program: Seq<char>,
        is_foreground: bool,
        override_enabled: Option<bool>,
    ) -> bool {
        &&& override_enabled.unwrap_or(self.enabled)
        &&& !is_foreground
        &&& self.binary@.len() > 0
        &&& !text::is_padded(self.binary@)
        &&& paths::base_name(program) != paths::base_name(self.binary@)
        &&& text::texts(self.allowlist.commands@).contains(paths::base_name(program))
    }

    /// Decides whether a program is wrapped.
    pub fn should_wrap(
        &self,
        program: &str,
        is_foreground: bool,
        override_enabled: Option<bool>,
    ) -> (result: bool)
        ensures
            result == self.wraps(program@, is_foreground, override_enabled),
    {
        let enabled = override_enabled.unwrap_or(self.enabled);
        if !enabled || is_foreground || self.binary.as_str().is_empty() || has_padding(
            self.binary.as_str(),
        ) {
            return false;
        }
        if same(command_base(program), self.binary_base()) {
            return false;
        }
        self.allowlist.matches(program)
    }

    fn binary_base(&self) -> (result: &str)
        ensures
            result@ == paths::base_name(self.binary@),
    {
        command_base(self.binary.as_str())
    }
}

/// A name that a resource section asks for: not empty and without white space around it.
pub open spec fn is_proper(name: Seq<char>) -> bool {
    name.len() > 0 && !text::is_padded(name)
}

fn proper(name: &str) -> (result: bool)
    ensures
        result == is_proper(name@),
{
    !name.is_empty() && !has_padding(name)
}

/// The resource that nvidia devices provide.
#[derive(Clone, Debug)]
pub struct NvidiaResourceConfig {
    pub enabled: bool,
    pub provider_id: String,
    pub gpu_key: String,
    pub gpu_mem_key: String,
    pub safety_margin_bytes: u64,
    pub probe_ttl_ms: u64,
}

/// How long a probe of the devices stays valid where nothing else is configured.
pub const DEFAULT_NVIDIA_PROBE_TTL_MS: u64 = 1_000;

/// How long a provider command may take where nothing else is configured.
pub const DEFAULT_RESOURCE_CLI_TIMEOUT_MS: u64 = 5_000;

/// How many finished jobs are kept where nothing else is configured.
pub const DEFAULT_MAX_JOB_HISTORY: usize = 200;

/// How many finished script runs are kept where nothing else is configured.
pub const DEFAULT_MAX_SCRIPT_RUNS: usize = 100;

/// Where sandboxed jobs write where nothing else is configured.
pub const DEFAULT_SANDBOX_UPPER_ROOT: &'static str = "/dev/shm/cue-shell-sandbox";

/// The bits of the double precision number 0.1.
pub const DEFAULT_SANDBOX_MIN_FREE_RATIO_BITS: u64 = 0x3fb9_9999_9999_999a;

impl Default for NvidiaResourceConfig {
    fn default() -> (config: Self)
        ensures
            !config.enabled,
            config.provider_id@ == "nvidia"@,
            config.gpu_key@ == "gpu"@,
            config.gpu_mem_key@ == "gpu_mem"@,
            config.safety_margin_bytes == 0,
            config.probe_ttl_ms == DEFAULT_NVIDIA_PROBE_TTL_MS,
    {
        NvidiaResourceConfig {
            enabled: false,
            provider_id: "nvidia".to_owned(),
            gpu_key: "gpu".to_owned(),
            gpu_mem_key: "gpu_mem".to_owned(),
            safety_margin_bytes: 0,
            probe_ttl_ms: DEFAULT_NVIDIA_PROBE_TTL_MS,
        }
    }
}

/// The message for an improper name in the nvidia section.
pub open spec fn nvidia_name_fault(field: Seq<char>, path: Seq<char>) -> Seq<char> {
    "resources.nvidia."@ + field + " in "@ + path
        + " must be non-empty and must not have leading or trailing whitespace"@
}

impl NvidiaResourceConfig {
    /// Why the section is refused, if it is: the first of its checks that fails.
    pub open spec fn fault(&self, path: Seq<char>) -> Option<Seq<char>> {
        if !is_proper(self.provider_id@) {
            Some(nvidia_name_fault("provider_id"@, path))
        } else if !is_proper(self.gpu_key@) {
            Some(nvidia_name_fault("gpu_key"@, path))
        } else if !is_proper(self.gpu_mem_key@) {
            Some(nvidia_name_fault("gpu_mem_key"@, path))
        } else if self.gpu_key@ == self.gpu_mem_key@ {
            Some(
                "resources.nvidia.gpu_key and gpu_mem_key in "@ + path + " must be distinct"@,
            )
        } else if self.probe_ttl_ms == 0 {
            Some(
                "resources.nvidia.probe_ttl_ms in "@ + path + " must be greater than zero"@,
            )
        } else {
            None
        }
    }

    fn name_error(field: &str, path: &str) -> (message: String)
        ensures
            message@ == nvidia_name_fault(field@, path@),
    {
        join5(
            "resources.nvidia.",
            field,
            " in ",
            path,
            " must be non-empty and must not have leading or trailing whitespace",
        )
    }

    /// Checks the section.
    pub fn validate(&self, path: &str) -> (result: Result<(), String>)
        ensures
            match result {
                Ok(()) => self.fault(path@).is_none(),
                Err(message) => self.fault(path@) == Some(message@),
            },
    {
        if !proper(self.provider_id.as_str()) {
            return Err(Self::name_error("provider_id", path));
        }
        if !proper(self.gpu_key.as_str()) {
            return Err(Self::name_error("gpu_key", path));
        }
        if !proper(self.gpu_mem_key.as_str()) {
            return Err(Self::name_error("gpu_mem_key", path));
        }
        if same(self.gpu_key.as_str(), self.gpu_mem_key.as_str()) {
            return Err(
                join3(
                    "resources.nvidia.gpu_key and gpu_mem_key in ",
                    path,
                    " must be distinct",
                ),
            );
        }
        if self.probe_ttl_ms == 0 {
            return Err(
                join3("resources.nvidia.probe_ttl_ms in ", path, " must be greater than zero"),
            );
        }
        Ok(())
    }
}

/// A resource that commands provide.
#[derive(Clone, Debug)]
pub struct CliResourceProviderConfig {
    pub keys: Vec<String>,
    pub probe: Vec<String>,
    pub reserve: Vec<String>,
    pub release: Vec<String>,
    pub timeout_ms: u64,
}

/// Why one of a provider's commands is refused, if it is.
pub open spec fn cli_command_fault(
    path: Seq<char>,
    id: Seq<char>,
    field: Seq<char>,
    argv: Seq<String>,
) -> Option<Seq<char>> {
    if argv.len() == 0 {
        Some(
            "resources.cli."@ + (id + "."@ + field) + " in "@ + path
                + " must be a non-empty argv array"@,
        )
    } else if !is_proper(argv[0]@) {
        Some(
            "resources.cli."@ + (id + "."@ + field) + "[0] in "@ + path
                + " must be non-empty and must not have leading or trailing whitespace"@,
        )
    } else {
        None
    }
}

/// Checks one of a provider's commands.
pub fn validate_resource_cli_command(path: &str, id: &str, field: &str, argv: &Vec<String>) -> (
    result: Result<(), String>)
    ensures
        match result {
            Ok(()) => cli_command_fault(path@, id@, field@, argv@).is_none(),
            Err(message) => cli_command_fault(path@, id@, field@, argv@) == Some(message@),
        },
{
    let place = join3(id, ".", field);
    if argv.len() == 0 {
        return Err(
            join5(
                "resources.cli.",
                place.as_str(),
                " in ",
                path,
                " must be a non-empty argv array",
            ),
        );
    }
    if !proper(argv[0].as_str()) {
        return Err(
            join5(
                "resources.cli.",
                place.as_str(),
                "[0] in ",
                path,
                " must be non-empty and must not have leading or trailing whitespace",
            ),
        );
    }
    Ok(())
}

impl CliResourceProviderConfig {
    /// Some key of the provider is not proper.
    pub open spec fn has_improper_key(&self) -> bool {
        exists|i: int| 0 <= i < self.keys@.len() && !is_proper((#[trigger] self.keys@[i])@)
    }

    /// Why the provider is refused, if it is: the first of its checks that fails.
    pub open spec fn fault(&self, path: Seq<char>, id: Seq<char>) -> Option<Seq<char>> {
        if self.keys@.len() == 0 {
            Some(
                "resources.cli."@ + id + ".keys in "@ + path
                    + " must contain at least one resource key"@,
            )
        } else if self.has_improper_key() {
            Some(
                "resources.cli."@ + id + ".keys in "@ + path
                    + " contains an empty or whitespace-padded key"@,
            )
        } else if cli_command_fault(path, id, "probe"@, self.probe@).is_some() {
            cli_command_fault(path, id, "probe"@, self.probe@)
        } else if cli_command_fault(path, id, "reserve"@, self.reserve@).is_some() {
            cli_command_fault(path, id, "reserve"@, self.reserve@)
        } else if cli_command_fault(path, id, "release"@, self.release@).is_some() {
            cli_command_fault(path, id, "release"@, self.release@)
        } else if self.timeout_ms == 0 {
            Some(
                "resources.cli."@ + id + ".timeout_ms in "@ + path
                    + " must be greater than zero"@,
            )
        } else {
            None
        }
    }

    /// Checks the provider.
    pub fn validate(&self, path: &str, id: &str) -> (result: Result<(), String>)
        ensures
            match result {
                Ok(()) => self.fault(path@, id@).is_none(),
                Err(message) => self.fault(path@, id@) == Some(message@),
            },
    {
        if self.keys.len() == 0 {
            return Err(
                join5(
                    "resources.cli.",
                    id,
                    ".keys in ",
                    path,
                    " must contain at least one resource key",
                ),
            );
        }
        for i in 0..self.keys.len()
            invariant
                self.keys@.len() > 0,
                forall|j: int| 0 <= j < i ==> is_proper((#[trigger] self.keys@[j])@),
        {
            if !proper(self.keys[i].as_str()) {
                return Err(
                    join5(
                        "resources.cli.",
                        id,
                        ".keys in ",
                        path,
                        " contains an empty or whitespace-padded key",
                    ),
                );
            }
        }
        if let Err(message) = validate_resource_cli_command(path, id, "probe", &self.probe) {
            return Err(message);
        }
        if let Err(message) = validate_resource_cli_command(path, id, "reserve", &self.reserve) {
            return Err(message);
        }
        if let Err(message) = validate_resource_cli_command(path, id, "release", &self.release) {
            return Err(message);
        }
        if self.timeout_ms == 0 {
            return Err(
                join5(
                    "resources.cli.",
                    id,
                    ".timeout_ms in ",
                    path,
                    " must be greater than zero",
                ),
            );
        }
        Ok(())
    }
}

/// The resources that jobs can reserve.
#[derive(Clone, Debug)]
pub struct ResourceConfig {
    pub cli: OrderedMap<CliResourceProviderConfig>,
    pub nvidia: NvidiaResourceConfig,
}

impl Default for ResourceConfig {
    fn default() -> (config: Self)
        ensures
            config.cli.pairs().len() == 0,
            !config.nvidia.enabled,
            config.nvidia.provider_id@ == "nvidia"@,
            config.nvidia.gpu_key@ == "gpu"@,
            config.nvidia.gpu_mem_key@ == "gpu_mem"@,
            config.nvidia.safety_margin_bytes == 0,
            config.nvidia.probe_ttl_ms == DEFAULT_NVIDIA_PROBE_TTL_MS,
    {
        ResourceConfig { cli: OrderedMap::new(), nvidia: NvidiaResourceConfig::default() }
    }
}

/// Why one provider is refused, if it is.
pub open spec fn provider_fault(
    path: Seq<char>,
    provider: (Seq<char>, CliResourceProviderConfig),
) -> Option<Seq<char>> {
    if !is_proper(provider.0) {
        Some(
            "resources.cli provider id `"@ + provider.0 + "` in "@ + path
                + " must be non-empty and must not have leading or trailing whitespace"@,
        )
    } else {
        provider.1.fault(path, provider.0)
    }
}

/// Why the first provider at or behind place `i` is refused for which there is a reason.
pub open spec fn providers_fault(
    path: Seq<char>,
    providers: Seq<(Seq<char>, CliResourceProviderConfig)>,
    i: int,
) -> Option<Seq<char>>
    decreases providers.len() - i,
{
    if i < 0 || i >= providers.len() {
        None
    } else if provider_fault(path, providers[i]).is_some() {
        provider_fault(path, providers[i])
    } else {
        providers_fault(path, providers, i + 1)
    }
}

impl ResourceConfig {
    /// Why the section is refused, if it is: the providers by name, and then nvidia.
    pub open spec fn fault(&self, path: Seq<char>) -> Option<Seq<char>> {
        if providers_fault(path, self.cli.pairs(), 0).is_some() {
            providers_fault(path, self.cli.pairs(), 0)
        } else {
            self.nvidia.fault(path)
        }
    }

    /// Checks the section.
    pub fn validate(&self, path: &str) -> (result: Result<(), String>)
        ensures
            match result {
                Ok(()) => self.fault(path@).is_none(),
                Err(message) => self.fault(path@) == Some(message@),
            },
    {
        let ghost pairs = self.cli.pairs();
        let mut i: usize = 0;
        while i < self.cli.len()
            invariant
                i <= pairs.len(),
                pairs == self.cli.pairs(),
                providers_fault(path@, pairs, 0) == providers_fault(path@, pairs, i as int),
            decreases pairs.len() - i,
        {
            let (id, provider) = self.cli.entry(i);
            if !proper(id.as_str()) {
                return Err(
                    join5(
                        "resources.cli provider id `",
                        id.as_str(),
                        "` in ",
                        path,
                        " must be non-empty and must not have leading or trailing whitespace",
                    ),
                );
            }
            if let Err(message) = provider.validate(path, id.as_str()) {
                return Err(message);
            }
            i = i + 1;
        }
        self.nvidia.validate(path)
    }
}

/// How much history is kept.
#[derive(Clone, Copy, Debug, PartialEq, Eq, Structural)]
pub struct RetentionConfig {
    pub max_job_history: usize,
    pub max_script_runs: usize,
}

impl Default for RetentionConfig {
    fn default() -> (config: Self)
        ensures
            config.max_job_history == DEFAULT_MAX_JOB_HISTORY,
            config.max_script_runs == DEFAULT_MAX_SCRIPT_RUNS,
    {
        RetentionConfig {
            max_job_history: DEFAULT_MAX_JOB_HISTORY,
            max_script_runs: DEFAULT_MAX_SCRIPT_RUNS,
        }
    }
}

/// Defaults for jobs that run in a file system sandbox.
///
/// Each such job writes below the upper root. None is prepared while less than the minimum share
/// of that file system is free; a share of zero switches the guard off.
#[derive(Clone, Debug)]
pub struct SandboxConfig {
    pub default_upper_root: String,
    /// The minimum free share as the bits of an IEEE 754 double precision number.
    pub min_free_ratio_bits: u64,
}

impl Default for SandboxConfig {
    fn default() -> (config: Self)
        ensures
            config.default_upper_root@ == DEFAULT_SANDBOX_UPPER_ROOT@,
            config.min_free_ratio_bits == DEFAULT_SANDBOX_MIN_FREE_RATIO_BITS,
    {
        SandboxConfig {
            default_upper_root: DEFAULT_SANDBOX_UPPER_ROOT.to_owned(),
            min_free_ratio_bits: DEFAULT_SANDBOX_MIN_FREE_RATIO_BITS,
        }
    }
}

/// The bits of a number that is at least zero and below one.
///
/// The bits of non-negative doubles grow with their value and end at those of 1.0; minus zero is
/// not below zero.
pub open spec fn is_share(bits: u64) -> bool {
    bits < 0x3ff0_0000_0000_0000 || bits == 0x8000_0000_0000_0000
}

/// Why a path setting is refused, if it is. There is no text where the path is not UTF-8.
pub open spec fn path_fault(
    value: Option<Seq<char>>,
    field: Seq<char>,
    config_path: Seq<char>,
) -> Option<Seq<char>> {
    match value {
        None => Some(field + " in "@ + config_path + " must be valid UTF-8"@),
        Some(value) => if text::is_blank(value) {
            Some(field + " in "@ + config_path + " must not be empty"@)
        } else if text::is_padded(value) {
            Some(
                field + " in "@ + config_path
                    + " must not have leading or trailing whitespace"@,
            )
        } else {
            None
        },
    }
}

/// The view of an optional text.
pub open spec fn optional_text(value: Option<&str>) -> Option<Seq<char>> {
    match value {
        Some(value) => Some(value@),
        None => None,
    }
}

/// Checks a path setting. There is no text where the path is not UTF-8.
pub fn validate_non_empty_path(value: Option<&str>, field: &str, config_path: &str) -> (result:
    Result<(), String>)
    ensures
        match result {
            Ok(()) => path_fault(optional_text(value), field@, config_path@).is_none(),
            Err(message) => path_fault(optional_text(value), field@, config_path@) == Some(
                message@,
            ),
        },
{
    let place = join3(field, " in ", config_path);
    match value {
        None => Err(join2(place.as_str(), " must be valid UTF-8")),
        Some(value) => {
            if blank(value) {
                return Err(join2(place.as_str(), " must not be empty"));
            }
            if has_padding(value) {
                return Err(
                    join2(place.as_str(), " must not have leading or trailing whitespace"),
                );
            }
            Ok(())
        },
    }
}

impl SandboxConfig {
    /// Why the section is refused, if it is.
    pub open spec fn fault(&self, path: Seq<char>) -> Option<Seq<char>> {
        let root = path_fault(
            Some(self.default_upper_root@),
            "sandbox.default_upper_root"@,
            path,
        );
        if root.is_some() {
            root
        } else if !is_share(self.min_free_ratio_bits) {
            Some(
                "sandbox.min_free_ratio in "@ + path + " must be in the range [0.0, 1.0)"@,
            )
        } else {
            None
        }
    }

    /// Checks the section.
    pub fn validate(&self, path: &str) -> (result: Result<(), String>)
        ensures
            match result {
                Ok(()) => self.fault(path@).is_none(),
                Err(message) => self.fault(path@) == Some(message@),
            },
    {
        if let Err(message) = validate_non_empty_path(
            Some(self.default_upper_root.as_str()),
            "sandbox.default_upper_root",
            path,
        ) {
            return Err(message);
        }
        if !(self.min_free_ratio_bits < 0x3ff0_0000_0000_0000 || self.min_free_ratio_bits
            == 0x8000_0000_0000_0000) {
            return Err(
                join3("sandbox.min_free_ratio in ", path, " must be in the range [0.0, 1.0)"),
            );
        }
        Ok(())
    }
}

/// The configuration of the daemon.
#[derive(Clone, Debug)]
pub struct Config {
    pub block: BlockConfig,
    pub warn: WarnConfig,
    pub aliases: AliasConfig,
    pub resources: ResourceConfig,
    pub retention: RetentionConfig,
    pub sandbox: SandboxConfig,
    pub wrapper: WrapperConfig,
}

impl Default for Config {
    fn default() -> (config: Self)
        ensures
            config.block.commands@.dom() == set!["git"@],
            is_default_git_rule(config.block.commands@["git"@]),
            config.block.versioned_commands.pairs().len() == 0,
            config.warn.commands.pairs().len() == 0,
            config.warn.commands@ == Map::<Seq<char>, String>::empty(),
            config.aliases.entries@.len() == 0,
            config.resources.cli.pairs().len() == 0,
            !config.resources.nvidia.enabled,
            config.resources.nvidia.provider_id@ == "nvidia"@,
            config.resources.nvidia.gpu_key@ == "gpu"@,
            config.resources.nvidia.gpu_mem_key@ == "gpu_mem"@,
            config.resources.nvidia.safety_margin_bytes == 0,
            config.resources.nvidia.probe_ttl_ms == DEFAULT_NVIDIA_PROBE_TTL_MS,
            config.retention.max_job_history == DEFAULT_MAX_JOB_HISTORY,
            config.retention.max_script_runs == DEFAULT_MAX_SCRIPT_RUNS,
            config.sandbox.default_upper_root@ == DEFAULT_SANDBOX_UPPER_ROOT@,
            config.sandbox.min_free_ratio_bits == DEFAULT_SANDBOX_MIN_FREE_RATIO_BITS,
            !config.wrapper.enabled,
            config.wrapper.binary@.len() == 0,
            config.wrapper.allowlist.commands@.len() == 0,
    {
        Config {
            block: BlockConfig::default(),
            warn: WarnConfig::default(),
            aliases: AliasConfig::default(),
            resources: ResourceConfig::default(),
            retention: RetentionConfig::default(),
            sandbox: SandboxConfig::default(),
            wrapper: WrapperConfig::default(),
        }
    }
}

impl Config {
    /// Why a configuration is refused, if it is: the wrapper, the resources, the sandbox.
    pub open spec fn fault(&self, path: Seq<char>) -> Option<Seq<char>> {
        if self.wrapper.fault(path).is_some() {
            self.wrapper.fault(path)
        } else if self.resources.fault(path).is_some() {
            self.resources.fault(path)
        } else {
            self.sandbox.fault(path)
        }
    }

    /// Checks a configuration.
    pub fn validate(&self, path: &str) -> (result: Result<(), String>)
        ensures
            match result {
                Ok(()) => self.fault(path@).is_none(),
                Err(message) => self.fault(path@) == Some(message@),
            },
    {
        if let Err(message) = self.wrapper.validate(path) {
            return Err(message);
        }
        if let Err(message) = self.resources.validate(path) {
            return Err(message);
        }
        self.sandbox.validate(path)
    }

    /// Decides whether a command line is blocked, or runs with a warning. A block comes first.
    pub fn check_command_guardrail(&self, command_line: &[String]) -> (result: Option<
        BlockDecision,
    >)
        ensures
            match result {
                Some(BlockDecision::Block(message)) => self.block.reason(command_line@) == Some(
                    message@,
                ),
                Some(BlockDecision::Warn(message)) => self.block.reason(command_line@).is_none()
                    && self.warn.advice(command_line@) == Some(message@),
                None => self.block.reason(command_line@).is_none() && self.warn.advice(
                    command_line@,
                ).is_none(),
            },
    {
        match self.block.check(command_line) {
            Some(decision) => Some(decision),
            None => self.warn.check(command_line),
        }
    }

    /// Completes a configuration that was read from a file: the built-in rules are merged in, and
    /// the result is checked.
    pub fn complete(parsed: Config, path: &str) -> (result: Result<Config, String>)
        ensures
            match result {
                Ok(config) => {
                    &&& parsed.fault(path@).is_none()
                    &&& config.warn == parsed.warn
                    &&& config.aliases == parsed.aliases
                    &&& config.resources == parsed.resources
                    &&& config.retention == parsed.retention
                    &&& config.sandbox == parsed.sandbox
                    &&& config.wrapper == parsed.wrapper
                    &&& config.block.versioned_commands == parsed.block.versioned_commands
                    &&& config.block.commands@.dom() == parsed.block.commands@.dom().insert(
                        "git"@,
                    )
                    &&& forall|name: Seq<char>|
                        name != "git"@ && parsed.block.commands@.contains_key(name)
                            ==> #[trigger] config.block.commands@[name]
                            == parsed.block.commands@[name]
                    &&& if parsed.block.commands@.contains_key("git"@) {
                        merged_git_rule(
                            parsed.block.commands@["git"@],
                            config.block.commands@["git"@],
                        )
                    } else {
                        is_default_git_rule(config.block.commands@["git"@])
                    }
                },
                Err(message) => parsed.fault(path@) == Some(message@),
            },
    {
        let mut config = parsed;
        config.block.ensure_defaults();
        match config.validate(path) {
            Ok(()) => Ok(config),
            Err(message) => Err(message),
        }
    }
}

/// The file below the configuration directory that holds the configuration.
pub const DAEMON_CONFIG_FILE: &'static str = "daemon.toml";

/// The file that is written where there is none.
pub const DEFAULT_DAEMON_CONFIG: &'static str =
    "# cue-shell daemon runtime configuration.
# This file is created automatically on first daemon startup and is safe to edit.
# Existing files are never overwritten; missing built-in guardrails are still
# merged at load time.

[block.versioned_commands]
python = \"Use `script_run`/`script_eval` for Python, or run `uv run python ...` explicitly; direct Python launchers are blocked so Python execution goes through uv.\"

[block.commands.git]
\"--no-verify\" = \"Run the commit normally; if hooks fail, inspect and fix the hook/check or ask before any alternative.\"

[retention]
max_job_history = 200
max_script_runs = 100
";

/// What the root of a configuration file looks like.
#[derive(Clone, Debug)]
pub enum RootShape {
    /// The text is not TOML; what the parser says about it.
    Invalid(String),
    /// The root is not a table.
    NotTable,
    /// The names of the root's entries, in the order in which the parser hands them out.
    Sections(Vec<String>),
}

/// The view of a root shape.
pub enum RootShapeView {
    Invalid(Seq<char>),
    NotTable,
    Sections(Seq<Seq<char>>),
}

impl View for RootShape {
    type V = RootShapeView;

    open spec fn view(&self) -> RootShapeView {
        match self {
            RootShape::Invalid(message) => RootShapeView::Invalid(message@),
            RootShape::NotTable => RootShapeView::NotTable,
            RootShape::Sections(names) => RootShapeView::Sections(text::texts(names@)),
        }
    }
}

/// What `toml::from_str` makes of a text as a `toml::Value`: its complaint, or the keys of the
/// root table.
pub uninterp spec fn toml_root(text: Seq<char>) -> RootShapeView;

/// Parses a text as TOML and lists the entries of the root.
///
/// Calls `toml::from_str` for a `toml::Value`. The result depends on the text alone; which texts
/// are TOML, and what the parser says about others, is not stated here.
#[verifier::external_body]
fn parse_toml_root(text: &str) -> (shape: RootShape)
    ensures
        shape@ == toml_root(text@),
{
    match toml::from_str::<toml::Value>(text) {
        Ok(value) => match value.as_table() {
            Some(root) => RootShape::Sections(root.keys().cloned().collect()),
            None => RootShape::NotTable,
        },
        Err(error) => RootShape::Invalid(error.to_string()),
    }
}

/// The sections that the daemon knows.
pub open spec fn is_daemon_section(name: Seq<char>) -> bool {
    ||| name == "aliases"@
    ||| name == "block"@
    ||| name == "resources"@
    ||| name == "retention"@
    ||| name == "sandbox"@
    ||| name == "warn"@
    ||| name == "wrapper"@
}

fn daemon_section(name: &str) -> (result: bool)
    ensures
        result == is_daemon_section(name@),
{
    same(name, "aliases") || same(name, "block") || same(name, "resources") || same(
        name,
        "retention",
    ) || same(name, "sandbox") || same(name, "warn") || same(name, "wrapper")
}

/// Why the root of a file is refused, if it is: the first section at or behind place `i` that
/// the daemon does not know.
pub open spec fn unknown_section(
    names: Seq<Seq<char>>,
    path: Seq<char>,
    i: int,
) -> Option<Seq<char>>
    decreases names.len() - i,
{
    if i < 0 || i >= names.len() {
        None
    } else if !is_daemon_section(names[i]) {
        Some(
            "unknown top-level daemon config section `"@ + names[i] + "` in "@ + path
                + "; expected daemon sections [aliases, block, resources, retention, sandbox, warn, wrapper]"@,
        )
    } else {
        unknown_section(names, path, i + 1)
    }
}

/// Why a file is refused for its root, if it is.
pub open spec fn root_fault(shape: RootShapeView, path: Seq<char>) -> Option<Seq<char>> {
    match shape {
        RootShapeView::Invalid(message) => Some("parse config "@ + path + ": "@ + message),
        RootShapeView::NotTable => Some("config "@ + path + " must be a TOML table"@),
        RootShapeView::Sections(names) => unknown_section(names, path, 0),
    }
}

/// Checks the root of a configuration file once it has been parsed.
pub fn check_root_shape(shape: &RootShape, path: &str) -> (result: Result<(), String>)
    ensures
        match result {
            Ok(()) => root_fault(shape@, path@).is_none(),
            Err(message) => root_fault(shape@, path@) == Some(message@),
        },
{
    match shape {
        RootShape::Invalid(message) => {
            let mut text = join3("parse config ", path, ": ");
            text.append(message.as_str());
            Err(text)
        },
        RootShape::NotTable => Err(join3("config ", path, " must be a TOML table")),
        RootShape::Sections(names) => {
            let ghost sections = text::texts(names@);
            let mut i: usize = 0;
            while i < names.len()
                invariant
                    i <= names.len(),
                    sections == text::texts(names@),
                    unknown_section(sections, path@, 0) == unknown_section(
                        sections,
                        path@,
                        i as int,
                    ),
                    shape@ == RootShapeView::Sections(sections),
                decreases names.len() - i,
            {
                assert(sections[i as int] == names@[i as int]@);
                if !daemon_section(names[i].as_str()) {
                    return Err(
                        join5(
                            "unknown top-level daemon config section `",
                            names[i].as_str(),
                            "` in ",
                            path,
                            "; expected daemon sections [aliases, block, resources, retention, sandbox, warn, wrapper]",
                        ),
                    );
                }
                i = i + 1;
            }
            Ok(())
        },
    }
}

/// Checks the text of a configuration file: it is TOML, and every section is known.
pub fn validate_root_config_shape(text: &str, path: &str) -> (result: Result<(), String>)
    ensures
        match result {
            Ok(()) => root_fault(toml_root(text@), path@).is_none(),
            Err(message) => root_fault(toml_root(text@), path@) == Some(message@),
        },
{
    let shape = parse_toml_root(text);
    check_root_shape(&shape, path)
}

/// A wrapper never wraps itself, by whatever path it is named and whatever the override says.
pub proof fn wrapper_is_idempotent(
    config: WrapperConfig,
    program: Seq<char>,
    is_foreground: bool,
    override_enabled: Option<bool>,
)
    requires
        paths::base_name(program) == paths::base_name(config.binary@),
    ensures
        !config.wraps(program, is_foreground, override_enabled),
{
}

/// A foreground program is never wrapped, and neither is one that is not on the list.
pub proof fn wrapper_needs_listed_background_program(
    config: WrapperConfig,
    program: Seq<char>,
    is_foreground: bool,
    override_enabled: Option<bool>,
)
    requires
        config.wraps(program, is_foreground, override_enabled),
    ensures
        !is_foreground,
        text::texts(config.allowlist.commands@).contains(paths::base_name(program)),
{
}

proof fn lemma_pattern_found(rules: Seq<(Seq<char>, String)>, arg: Seq<char>, k: int, at: int)
    requires
        0 <= k <= at < rules.len(),
        arg_matches(arg, rules[at].0),
    ensures
        first_pattern(rules, arg, k).is_some(),
    decreases at - k,
{
    if k < at && !arg_matches(arg, rules[k].0) {
        lemma_pattern_found(rules, arg, k + 1, at);
    }
}

proof fn lemma_blocked_arg_found(
    command: Seq<char>,
    argv: Seq<String>,
    rules: Seq<(Seq<char>, String)>,
    i: int,
    at: int,
)
    requires
        0 <= i <= at < argv.len(),
        first_pattern(rules, argv[at]@, 0).is_some(),
    ensures
        first_blocked_arg(command, argv, rules, i).is_some(),
    decreases at - i,
{
    if i < at && first_pattern(rules, argv[i]@, 0).is_none() {
        lemma_blocked_arg_found(command, argv, rules, i + 1, at);
    }
}

/// With the built-in rules merged in, git never runs with `--no-verify` among its arguments.
pub proof fn git_hooks_are_guarded(config: BlockConfig, argv: Seq<String>, at: int)
    requires
        config.commands@.contains_key("git"@),
        rule_patterns(config.commands@["git"@]).is_none() || rule_patterns(
            config.commands@["git"@],
        ).unwrap().contains_key("--no-verify"@),
        1 <= at < argv.len(),
        paths::base_name(argv[0]@) == "git"@,
        argv[at]@ == "--no-verify"@,
    ensures
        config.reason(argv).is_some(),
{
    match config.commands@["git"@] {
        BlockCommandRule::WholeCommand(_) => {},
        BlockCommandRule::Args(rules) => {
            let pairs = rules.pairs();
            let k = choose|k: int| 0 <= k < pairs.len() && (#[trigger] pairs[k]).0
                == "--no-verify"@;
            assert(arg_matches(argv[at]@, pairs[k].0));
            lemma_pattern_found(pairs, argv[at]@, 0, k);
            lemma_blocked_arg_found(argv[0]@, argv, pairs, 1, at);
        },
    }
}

/// Of two aliases that match an input, the one with more words is applied.
pub proof fn longest_alias_wins(entries: Seq<AliasEntry>, input: Seq<char>, k: int)
    requires
        !alias_exempt(entries, input),
        0 <= k < entries.len(),
        alias_matches(entries[k], input),
        forall|i: int, j: int|
            0 <= i < j < entries.len() ==> tried_before(
                #[trigger] entries[i],
                #[trigger] entries[j],
            ),
        forall|j: int|
            0 <= j < entries.len() && j != k && alias_matches(#[trigger] entries[j], input)
                ==> words::words(entries[j].from@).len() < words::words(entries[k].from@).len(),
    ensures
        aliased(entries, input) == alias_replaced(entries[k], input),
{
    assert forall|j: int| 0 <= j < k implies !alias_matches(#[trigger] entries[j], input) by {
        assert(tried_before(entries[j], entries[k]));
    }
    lemma_first_alias(entries, input, 0, k);
}

proof fn lemma_first_alias(entries: Seq<AliasEntry>, input: Seq<char>, i: int, k: int)
    requires
        0 <= i <= k < entries.len(),
        alias_matches(entries[k], input),
        forall|j: int| 0 <= j < k ==> !alias_matches(#[trigger] entries[j], input),
    ensures
        aliased_from(entries, input, i) == alias_replaced(entries[k], input),
    decreases k - i,
{
    if i < k {
        assert(!alias_matches(entries[i], input));
        lemma_first_alias(entries, input, i + 1, k);
    }
}

/// An input that no alias matches comes back as it is.
pub proof fn unmatched_input_is_kept(entries: Seq<AliasEntry>, input: Seq<char>)
    requires
        forall|j: int| 0 <= j < entries.len() ==> !alias_matches(#[trigger] entries[j], input),
    ensures
        aliased(entries, input) == input,
{
    lemma_no_alias(entries, input, 0);
}

proof fn lemma_no_alias(entries: Seq<AliasEntry>, input: Seq<char>, i: int)
    requires
        0 <= i <= entries.len(),
        forall|j: int| 0 <= j < entries.len() ==> !alias_matches(#[trigger] entries[j], input),
    ensures
        aliased_from(entries, input, i) == input,
    decreases entries.len() - i,
{
    if i < entries.len() {
        assert(!alias_matches(entries[i], input));
        lemma_no_alias(entries, input, i + 1);
    }
}

/// An override decides whatever the configuration says: switched off nothing is wrapped, and
/// switched on the configured default plays no part. Without an override the configured default
/// decides as the same override would.
pub proof fn override_decides_on_wrapping(
    config: &WrapperConfig,
    switched: &WrapperConfig,
    program: &str,
    is_foreground: bool,
    off: bool,
    on: bool,
    switched_on: bool,
    unset: bool,
    as_configured: bool,
)
    requires
        switched.binary == config.binary,
        switched.allowlist == config.allowlist,
        call_ensures(
            WrapperConfig::should_wrap,
            (config, program, is_foreground, Some(false)),
            off,
        ),
        call_ensures(WrapperConfig::should_wrap, (config, program, is_foreground, Some(true)), on),
        call_ensures(
            WrapperConfig::should_wrap,
            (switched, program, is_foreground, Some(true)),
            switched_on,
        ),
        call_ensures(WrapperConfig::should_wrap, (config, program, is_foreground, None), unset),
        call_ensures(
            WrapperConfig::should_wrap,
            (config, program, is_foreground, Some(config.enabled)),
            as_configured,
        ),
    ensures
        !off,
        on == switched_on,
        unset == as_configured,
        unset == (config.enabled && on),
{
}

/// A program is wrapped where the wrapper is switched on, the program runs in the background, its
/// base name is listed, and the wrapper is another program with a proper name: nothing else is asked
/// for, and none of it can be missing.
pub proof fn listed_background_programs_are_wrapped(
    config: &WrapperConfig,
    program: &str,
    is_foreground: bool,
    override_enabled: Option<bool>,
    at: int,
    result: bool,
)
    requires
        call_ensures(
            WrapperConfig::should_wrap,
            (config, program, is_foreground, override_enabled),
            result,
        ),
    ensures
        0 <= at < config.allowlist.commands@.len() && config.allowlist.commands@[at]@
            == paths::base_name(program@) && !is_foreground && config.binary@.len() > 0
            && !text::is_space(config.binary@[0]) && !text::is_space(config.binary@.last())
            && paths::base_name(config.binary@) != paths::base_name(program@) && (override_enabled
            == Some(true) || override_enabled is None && config.enabled) ==> result,
        result ==> !is_foreground,
        result ==> override_enabled == Some(true) || override_enabled is None && config.enabled,
        result ==> config.binary@.len() > 0 && !text::is_space(config.binary@[0])
            && !text::is_space(config.binary@.last()),
        result ==> paths::base_name(config.binary@) != paths::base_name(program@),
        result ==> exists|i: int|
            0 <= i < config.allowlist.commands@.len() && (#[trigger] config.allowlist.commands@[i])@
                == paths::base_name(program@),
{
    let texts = text::texts(config.allowlist.commands@);
    if 0 <= at < config.allowlist.commands@.len() {
        assert(texts[at] == config.allowlist.commands@[at]@);
    }
    if result {
        let i = choose|i: int| 0 <= i < texts.len() && texts[i] == paths::base_name(program@);
        assert(texts[i] == config.allowlist.commands@[i]@);
    }
}

/// A command that starts with a colon is never replaced by an alias.
pub proof fn commands_are_no_aliases(config: &AliasConfig, input: &str, result: String)
    requires
        call_ensures(AliasConfig::apply, (config, input), result),
        input@.len() > 0 && input@[0] == ':' || config.entries@.len() == 0,
    ensures
        result@ == input@,
{
}

/// An alias that alone matches an input replaces its first words, as many as the alias has, and
/// keeps everything behind them as it was written.
pub proof fn alias_keeps_what_follows(
    config: &AliasConfig,
    input: &str,
    entry: AliasEntry,
    result: String,
)
    requires
        call_ensures(AliasConfig::apply, (config, input), result),
        config.entries@ == seq![entry],
        input@.len() > 0 ==> input@[0] != ':',
        0 < words::words(entry.from@).len() <= words::words(input@).len(),
        forall|i: int|
            0 <= i < words::words(entry.from@).len() ==> words::words(entry.from@)[i]
                == #[trigger] words::words(input@)[i],
    ensures
        result@ == entry.to@ + input@.skip(
            words::word_spans(input@)[words::words(entry.from@).len() - 1].1,
        ),
{
    assert(words::words(input@).take(words::words(entry.from@).len() as int) =~= words::words(
        entry.from@,
    ));
    assert(alias_matches(entry, input@));
    assert(config.entries@[0] == entry);
}

/// An argument matches a pattern if it is the pattern, or the pattern with a value behind an equals
/// sign. Anything else behind the pattern is another argument, and so is a part of it.
pub proof fn argument_matches_its_pattern(
    pattern: &str,
    arg: &str,
    rest: Seq<char>,
    result: bool,
)
    requires
        call_ensures(blocked_arg_matches, (arg, pattern), result),
        arg@ == pattern@ + rest,
    ensures
        result <==> rest.len() == 0 || rest[0] == '=',
{
    reveal_strlit("=");
    if rest.len() == 0 {
        assert(arg@ =~= pattern@);
    } else {
        assert(arg@ != pattern@);
        let given = pattern@ + "="@;
        assert(arg@.take(given.len() as int)[pattern@.len() as int] == rest[0]);
        if rest[0] == '=' {
            assert(arg@.take(given.len() as int) =~= given);
        } else {
            assert(given[pattern@.len() as int] == '=');
        }
    }
}

/// What does not begin with the pattern does not match it.
pub proof fn other_argument_does_not_match(pattern: &str, arg: &str, result: bool)
    requires
        call_ensures(blocked_arg_matches, (arg, pattern), result),
        !pattern@.is_prefix_of(arg@),
    ensures
        !result,
{
    reveal_strlit("=");
    let given = pattern@ + "="@;
    if given.is_prefix_of(arg@) {
        assert(arg@.take(pattern@.len() as int) =~= pattern@);
    }
    if arg@ == pattern@ {
        assert(arg@.take(pattern@.len() as int) =~= pattern@);
    }
}

/// A program that is blocked as a whole is blocked with any arguments, by whatever path it is called,
/// and the message names it and gives the hint. A program under no rule at all runs.
pub proof fn whole_command_is_blocked(
    config: &BlockConfig,
    command_line: &[String],
    result: Option<BlockDecision>,
)
    requires
        call_ensures(BlockConfig::check, (config, command_line), result),
        command_line@.len() > 0,
        config.versioned_commands.pairs().len() == 0,
    ensures
        !config.commands@.contains_key(paths::base_name(command_line@[0]@)) ==> result is None,
        config.commands@.contains_key(paths::base_name(command_line@[0]@)) ==> (
        config.commands@[paths::base_name(command_line@[0]@)] matches BlockCommandRule::WholeCommand(
            hint,
        ) ==> (result matches Some(BlockDecision::Block(message)) && message@ == "blocked: `"@
            + command_line@[0]@ + "` is forbidden by daemon config\n  hint: "@ + hint@
            + "\n  (see [block.commands] in daemon.toml)"@)),
{
}

/// A program with rules for its arguments is blocked exactly where one of its arguments, behind its
/// name, matches one of the patterns; the name itself is no argument.
pub proof fn argument_rules_look_at_arguments(
    config: &BlockConfig,
    command_line: &[String],
    rules: OrderedMap<String>,
    result: Option<BlockDecision>,
)
    requires
        call_ensures(BlockConfig::check, (config, command_line), result),
        command_line@.len() > 0,
        config.commands@.contains_key(paths::base_name(command_line@[0]@)),
        config.commands@[paths::base_name(command_line@[0]@)] == BlockCommandRule::Args(rules),
    ensures
        result is Some <==> exists|i: int, k: int|
            1 <= i < command_line@.len() && 0 <= k < rules.pairs().len() && arg_matches(
                (#[trigger] command_line@[i])@,
                (#[trigger] rules.pairs()[k]).0,
            ),
        !(result matches Some(decision) && decision is Warn),
{
    let pairs = rules.pairs();
    let argv = command_line@;
    if result is Some {
        let i = lemma_blocked_arg_is(argv[0]@, argv, pairs, 1);
        let k = lemma_pattern_is(pairs, argv[i]@, 0);
        assert(arg_matches(argv[i]@, pairs[k].0));
    }
    if exists|i: int, k: int|
        1 <= i < argv.len() && 0 <= k < pairs.len() && arg_matches(
            (#[trigger] argv[i])@,
            (#[trigger] pairs[k]).0,
        ) {
        let (i, k) = choose|i: int, k: int|
            1 <= i < argv.len() && 0 <= k < pairs.len() && arg_matches(
                (#[trigger] argv[i])@,
                (#[trigger] pairs[k]).0,
            );
        lemma_pattern_found(pairs, argv[i]@, 0, k);
        lemma_blocked_arg_found(argv[0]@, argv, pairs, 1, i);
    }
}

proof fn lemma_pattern_is(rules: Seq<(Seq<char>, String)>, arg: Seq<char>, k: int) -> (at: int)
    requires
        0 <= k,
        first_pattern(rules, arg, k) is Some,
    ensures
        k <= at < rules.len(),
        arg_matches(arg, rules[at].0),
    decreases rules.len() - k,
{
    if arg_matches(arg, rules[k].0) {
        k
    } else {
        lemma_pattern_is(rules, arg, k + 1)
    }
}

proof fn lemma_blocked_arg_is(
    command: Seq<char>,
    argv: Seq<String>,
    rules: Seq<(Seq<char>, String)>,
    i: int,
) -> (at: int)
    requires
        0 <= i,
        first_blocked_arg(command, argv, rules, i) is Some,
    ensures
        i <= at < argv.len(),
        first_pattern(rules, argv[at]@, 0) is Some,
    decreases argv.len() - i,
{
    if first_pattern(rules, argv[i]@, 0) is Some {
        i
    } else {
        lemma_blocked_arg_is(command, argv, rules, i + 1)
    }
}

proof fn lemma_digit(c: char)
    ensures
        text::is_digit(c) <==> '0' <= c && c <= '9',
{
}

/// A versioned rule blocks its stem and the stem with a version of digits behind it, unless a rule of
/// the very name exists; a name that goes on with anything but digits and dots is another program.
pub proof fn versions_of_a_stem_are_blocked(
    base: &str,
    stem: &str,
    rest: Seq<char>,
    result: bool,
)
    requires
        call_ensures(versioned_command_matches, (base, stem), result),
        base@ == stem@ + rest,
    ensures
        stem@.len() == 0 ==> !result,
        stem@.len() > 0 && rest.len() == 0 ==> result,
        stem@.len() > 0 && rest.len() > 0 && (forall|i: int|
            0 <= i < rest.len() ==> '0' <= (#[trigger] rest[i]) && rest[i] <= '9') ==> result,
        (exists|i: int|
            0 <= i < rest.len() && !('0' <= (#[trigger] rest[i]) && rest[i] <= '9') && rest[i] != '.')
            ==> !result,
        rest.len() > 0 && (rest[0] == '.' || rest.last() == '.') ==> !result,
        (exists|i: int| 0 <= i < rest.len() - 1 && #[trigger] rest[i] == '.' && rest[i + 1] == '.')
            ==> !result,
        stem@.len() > 0 && rest.len() >= 3 && rest[1] == '.' && (forall|i: int|
            0 <= i < rest.len() && i != 1 ==> '0' <= (#[trigger] rest[i]) && rest[i] <= '9') ==> result,
{
    let suffix = base@.skip(stem@.len() as int);
    assert(suffix =~= rest);
    if rest.len() == 0 {
        assert(base@ =~= stem@);
    } else {
        assert(base@ != stem@);
        assert(base@.take(stem@.len() as int) =~= stem@);
    }
    if exists|i: int|
        0 <= i < rest.len() && !('0' <= (#[trigger] rest[i]) && rest[i] <= '9') && rest[i] != '.' {
        let i = choose|i: int|
            0 <= i < rest.len() && !('0' <= (#[trigger] rest[i]) && rest[i] <= '9') && rest[i] != '.';
        lemma_digit(rest[i]);
        assert(!text::is_digit(suffix[i]));
    }
    if exists|i: int| 0 <= i < rest.len() - 1 && #[trigger] rest[i] == '.' && rest[i + 1] == '.' {
        let i = choose|i: int|
            0 <= i < rest.len() - 1 && #[trigger] rest[i] == '.' && rest[i + 1] == '.';
        let j = i + 1;
        assert(!text::is_digit(suffix[i]) && !text::is_digit(suffix[j]));
    }
}

/// A versioned rule applies exactly to programs without a rule of their own name.
pub proof fn own_rule_comes_before_versions(
    config: &BlockConfig,
    command_line: &[String],
    result: Option<BlockDecision>,
    k: int,
)
    requires
        call_ensures(BlockConfig::check, (config, command_line), result),
        command_line@.len() > 0,
        0 <= k < config.versioned_commands.pairs().len(),
        is_versioned(
            paths::base_name(command_line@[0]@),
            config.versioned_commands.pairs()[k].0,
        ),
        !config.commands@.contains_key(paths::base_name(command_line@[0]@)),
    ensures
        result is Some,
{
    lemma_version_found(command_line@[0]@, config.versioned_commands.pairs(), 0, k);
}

proof fn lemma_version_found(
    command: Seq<char>,
    stems: Seq<(Seq<char>, String)>,
    k: int,
    at: int,
)
    requires
        0 <= k <= at < stems.len(),
        is_versioned(paths::base_name(command), stems[at].0),
    ensures
        first_versioned(command, stems, k) is Some,
    decreases at - k,
{
    if k < at && !is_versioned(paths::base_name(command), stems[k].0) {
        lemma_version_found(command, stems, k + 1, at);
    }
}

/// Advice is given for a program by its base name, with the configured text, and never blocks. A
/// block comes before any advice.
pub proof fn advice_never_blocks(
    config: &Config,
    command_line: &[String],
    blocked: Option<BlockDecision>,
    advised: Option<BlockDecision>,
    result: Option<BlockDecision>,
)
    requires
        call_ensures(BlockConfig::check, (&config.block, command_line), blocked),
        call_ensures(WarnConfig::check, (&config.warn, command_line), advised),
        call_ensures(Config::check_command_guardrail, (config, command_line), result),
    ensures
        advised is Some <==> command_line@.len() > 0 && config.warn.commands@.contains_key(
            paths::base_name(command_line@[0]@),
        ),
        advised matches Some(decision) ==> (decision matches BlockDecision::Warn(text) && text@
            == config.warn.commands@[paths::base_name(command_line@[0]@)]@),
        result is None <==> blocked is None && advised is None,
        (result matches Some(decision) && decision is Block) <==> blocked is Some,
        command_line@.len() == 0 ==> result is None,
{
}

/// A wrapper section is refused exactly where its name is padded, or where it is switched on without
/// a name.
pub proof fn wrapper_needs_a_proper_name(
    config: &WrapperConfig,
    path: &str,
    result: Result<(), String>,
)
    requires
        call_ensures(WrapperConfig::validate, (config, path), result),
    ensures
        result is Err <==> config.binary@.len() > 0 && (text::is_space(config.binary@[0])
            || text::is_space(config.binary@.last())) || config.enabled && config.binary@.len()
            == 0,
{
}

/// What a name in a resource section has to be.
pub open spec fn is_trimmed_name(name: Seq<char>) -> bool {
    name.len() > 0 && !text::is_space(name[0]) && !text::is_space(name.last())
}

/// The nvidia section is accepted exactly with three proper names, of which the two keys differ, and
/// a probe that stays valid for some time. Whether it is enabled does not matter.
pub proof fn nvidia_section_is_checked(
    config: &NvidiaResourceConfig,
    path: &str,
    result: Result<(), String>,
)
    requires
        call_ensures(NvidiaResourceConfig::validate, (config, path), result),
    ensures
        result is Ok <==> is_trimmed_name(config.provider_id@) && is_trimmed_name(config.gpu_key@)
            && is_trimmed_name(config.gpu_mem_key@) && config.gpu_key@ != config.gpu_mem_key@
            && config.probe_ttl_ms > 0,
{
}

/// A provider is accepted exactly with at least one key, all of them proper, three commands that
/// name a program, and some time to run them in.
pub proof fn cli_provider_is_checked(
    config: &CliResourceProviderConfig,
    path: &str,
    id: &str,
    result: Result<(), String>,
)
    requires
        call_ensures(CliResourceProviderConfig::validate, (config, path, id), result),
    ensures
        result is Ok <==> {
            &&& config.keys@.len() > 0
            &&& forall|i: int|
                0 <= i < config.keys@.len() ==> is_trimmed_name((#[trigger] config.keys@[i])@)
            &&& config.probe@.len() > 0 && is_trimmed_name(config.probe@[0]@)
            &&& config.reserve@.len() > 0 && is_trimmed_name(config.reserve@[0]@)
            &&& config.release@.len() > 0 && is_trimmed_name(config.release@[0]@)
            &&& config.timeout_ms > 0
        },
{
    if config.has_improper_key() {
        let i = choose|i: int|
            0 <= i < config.keys@.len() && !is_proper((#[trigger] config.keys@[i])@);
        assert(!is_trimmed_name(config.keys@[i]@));
    } else {
        assert forall|i: int| 0 <= i < config.keys@.len() implies is_trimmed_name(
            (#[trigger] config.keys@[i])@,
        ) by {
            assert(is_proper(config.keys@[i]@));
        }
    }
}

/// The resources are accepted exactly where every provider has a proper name and is accepted
/// itself, and the nvidia section is accepted.
pub proof fn every_provider_is_checked(
    config: &ResourceConfig,
    path: &str,
    result: Result<(), String>,
    nvidia: Result<(), String>,
)
    requires
        call_ensures(ResourceConfig::validate, (config, path), result),
        call_ensures(NvidiaResourceConfig::validate, (&config.nvidia, path), nvidia),
    ensures
        result is Ok <==> nvidia is Ok && forall|i: int|
            0 <= i < config.cli.pairs().len() ==> is_trimmed_name(
                (#[trigger] config.cli.pairs()[i]).0,
            ) && config.cli.pairs()[i].1.fault(path@, config.cli.pairs()[i].0) is None,
{
    lemma_providers_fault(path@, config.cli.pairs(), 0);
}

proof fn lemma_providers_fault(
    path: Seq<char>,
    providers: Seq<(Seq<char>, CliResourceProviderConfig)>,
    i: int,
)
    requires
        0 <= i <= providers.len(),
    ensures
        providers_fault(path, providers, i) is None <==> forall|k: int|
            i <= k < providers.len() ==> is_trimmed_name((#[trigger] providers[k]).0)
                && providers[k].1.fault(path, providers[k].0) is None,
    decreases providers.len() - i,
{
    if i < providers.len() {
        lemma_providers_fault(path, providers, i + 1);
        assert(provider_fault(path, providers[i]) is None <==> is_trimmed_name(providers[i].0)
            && providers[i].1.fault(path, providers[i].0) is None);
        if forall|k: int|
            i + 1 <= k < providers.len() ==> is_trimmed_name((#[trigger] providers[k]).0)
                && providers[k].1.fault(path, providers[k].0) is None {
            if provider_fault(path, providers[i]) is None {
                assert forall|k: int| i <= k < providers.len() implies is_trimmed_name(
                    (#[trigger] providers[k]).0,
                ) && providers[k].1.fault(path, providers[k].0) is None by {}
            }
        }
    }
}

/// A path setting is accepted exactly where it is text with something in it besides white space, and
/// no white space around it.
pub proof fn path_setting_is_checked(
    value: Option<&str>,
    field: &str,
    config_path: &str,
    result: Result<(), String>,
)
    requires
        call_ensures(validate_non_empty_path, (value, field, config_path), result),
    ensures
        result is Ok <==> (value matches Some(text) && is_trimmed_name(text@)),
{
    if let Some(value) = value {
        if value@.len() > 0 {
            let first = value@[0];
            let last = value@[value@.len() - 1];
            if text::is_blank(value@) {
                assert(text::is_space(first));
            }
        }
    }
}

/// The sandbox is accepted exactly with a proper root and a share that is a number from zero up to,
/// but not including, one.
pub proof fn sandbox_is_checked(config: &SandboxConfig, path: &str, result: Result<(), String>)
    requires
        call_ensures(SandboxConfig::validate, (config, path), result),
    ensures
        result is Ok <==> is_trimmed_name(config.default_upper_root@) && (
        config.min_free_ratio_bits <= 0x3fef_ffff_ffff_ffff || config.min_free_ratio_bits
            == 0x8000_0000_0000_0000),
{
    let root = config.default_upper_root@;
    if root.len() > 0 && text::is_blank(root) {
        assert(text::is_space(root[0]));
    }
}

/// A configuration is accepted exactly where the wrapper, the resources and the sandbox are, and it
/// is completed exactly where it is accepted: nothing that was configured is lost, and git is always
/// under a rule.
pub proof fn completion_checks_everything(
    config: Config,
    path: &str,
    wrapper: Result<(), String>,
    resources: Result<(), String>,
    sandbox: Result<(), String>,
    result: Result<(), String>,
    completed: Result<Config, String>,
)
    requires
        call_ensures(WrapperConfig::validate, (&config.wrapper, path), wrapper),
        call_ensures(ResourceConfig::validate, (&config.resources, path), resources),
        call_ensures(SandboxConfig::validate, (&config.sandbox, path), sandbox),
        call_ensures(Config::validate, (&config, path), result),
        call_ensures(Config::complete, (config, path), completed),
    ensures
        result is Ok <==> wrapper is Ok && resources is Ok && sandbox is Ok,
        completed is Ok <==> result is Ok,
        completed matches Ok(full) ==> {
            &&& full.wrapper == config.wrapper
            &&& full.aliases == config.aliases
            &&& full.warn == config.warn
            &&& full.resources == config.resources
            &&& full.sandbox == config.sandbox
            &&& full.retention == config.retention
            &&& full.block.commands@.contains_key("git"@)
            &&& forall|name: Seq<char>|
                config.block.commands@.contains_key(name)
                    ==> #[trigger] full.block.commands@.contains_key(name)
        },
{
}

/// After completion git never runs with `--no-verify`, unless the configuration itself says what
/// becomes of it: whatever rules are configured, without rules and with them.
pub proof fn completed_configuration_guards_git(
    config: Config,
    path: &str,
    completed: Result<Config, String>,
    command_line: &[String],
    decision: Option<BlockDecision>,
    at: int,
)
    requires
        call_ensures(Config::complete, (config, path), completed),
        completed is Ok,
        call_ensures(BlockConfig::check, (&completed->Ok_0.block, command_line), decision),
        1 <= at < command_line@.len(),
        paths::base_name(command_line@[0]@) == "git"@,
        command_line@[at]@ == "--no-verify"@,
    ensures
        decision is Some,
{
    let block = completed->Ok_0.block;
    let rule = block.commands@["git"@];
    assert(block.commands@.contains_key("git"@));
    if config.block.commands@.contains_key("git"@) {
        match config.block.commands@["git"@] {
            BlockCommandRule::WholeCommand(_) => {},
            BlockCommandRule::Args(rules) => {
                if rules@.contains_key("--no-verify"@) {
                } else {
                    assert(rules@.dom().insert("--no-verify"@).contains("--no-verify"@));
                }
            },
        }
    } else {
        assert(set!["--no-verify"@].contains("--no-verify"@));
    }
    git_hooks_are_guarded(block, command_line@, at);
}

/// A file is accepted for its root exactly where it is a table whose sections are all among the
/// seven that the daemon reads.
pub proof fn only_daemon_sections_are_accepted(
    shape: &RootShape,
    path: &str,
    result: Result<(), String>,
)
    requires
        call_ensures(check_root_shape, (shape, path), result),
    ensures
        result is Ok <==> (*shape matches RootShape::Sections(names) && forall|i: int|
            0 <= i < names@.len() ==> {
                let name = (#[trigger] names@[i])@;
                name == "aliases"@ || name == "block"@ || name == "resources"@ || name
                    == "retention"@ || name == "sandbox"@ || name == "warn"@ || name == "wrapper"@
            }),
{
    if let RootShape::Sections(names) = shape {
        let sections = text::texts(names@);
        lemma_unknown_section(sections, path@, 0);
        assert forall|i: int| 0 <= i < names@.len() implies sections[i] == (
        #[trigger] names@[i])@ by {}
        if forall|i: int| 0 <= i < names@.len() ==> is_daemon_section((#[trigger] names@[i])@) {
            assert forall|i: int| 0 <= i < sections.len() implies is_daemon_section(
                #[trigger] sections[i],
            ) by {
                assert(is_daemon_section(names@[i]@));
            }
        }
        if forall|i: int| 0 <= i < sections.len() ==> is_daemon_section(#[trigger] sections[i]) {
            assert forall|i: int| 0 <= i < names@.len() implies is_daemon_section(
                (#[trigger] names@[i])@,
            ) by {
                assert(is_daemon_section(sections[i]));
            }
        }
    }
}

proof fn lemma_unknown_section(names: Seq<Seq<char>>, path: Seq<char>, i: int)
    requires
        0 <= i <= names.len(),
    ensures
        unknown_section(names, path, i) is None <==> forall|k: int|
            i <= k < names.len() ==> is_daemon_section(#[trigger] names[k]),
    decreases names.len() - i,
{
    if i < names.len() {
        lemma_unknown_section(names, path, i + 1);
    }
}

/// Without a file nothing is wrapped, nothing is replaced, nothing is advised, and only the hooks of
/// git are guarded. The history keeps 200 jobs and 100 script runs, a probe is valid for a second, and
/// a provider command may take five.
pub proof fn defaults_guard_git_alone(config: Config)
    requires
        call_ensures(Config::default, (), config),
    ensures
        !config.wrapper.enabled,
        config.aliases.entries@.len() == 0,
        config.warn.commands.pairs().len() == 0,
        config.block.versioned_commands.pairs().len() == 0,
        forall|name: Seq<char>| #[trigger]
            config.block.commands@.contains_key(name) <==> name == "git"@,
        !config.resources.nvidia.enabled,
        config.resources.cli.pairs().len() == 0,
        config.retention.max_job_history == 200,
        config.retention.max_script_runs == 100,
        config.resources.nvidia.probe_ttl_ms == 1000,
        config.resources.nvidia.gpu_key@ != config.resources.nvidia.gpu_mem_key@,
        DEFAULT_RESOURCE_CLI_TIMEOUT_MS == 5 * config.resources.nvidia.probe_ttl_ms,
        config.fault("daemon.toml"@) is None,
{
    reveal_strlit("nvidia");
    reveal_strlit("gpu");
    reveal_strlit("gpu_mem");
    reveal_strlit("/dev/shm/cue-shell-sandbox");
    assert(config.resources.nvidia.gpu_key@.len() == 3);
    assert(config.resources.nvidia.gpu_mem_key@.len() == 7);
    let root = config.sandbox.default_upper_root@;
    assert(!text::is_space(root[0]));
}

/// Aliases are tried in the order of their words: one with more words before one with fewer, and of two
/// with as many the one whose name comes first. Each stands for what it was configured to.
pub proof fn longer_aliases_come_first(
    map: &OrderedMap<String>,
    config: AliasConfig,
    i: int,
    j: int,
    first: &str,
    second: &str,
    first_words: usize,
    second_words: usize,
)
    requires
        call_ensures(AliasConfig::from_map, (map,), config),
        0 <= i < j < config.entries@.len(),
        first@ == config.entries@[i].from@,
        second@ == config.entries@[j].from@,
        call_ensures(word_count, (first,), first_words),
        call_ensures(word_count, (second,), second_words),
    ensures
        first_words >= second_words,
        first_words == second_words ==> ordered_map::before(first@, second@),
        config.entries@.len() == map.pairs().len(),
        map@.contains_key(first@) && map@[first@]@ == config.entries@[i].to@,
{
    assert(tried_before(config.entries@[i], config.entries@[j]));
}

/// One of a provider's commands has to name a program, without white space around it.
pub proof fn provider_command_names_a_program(
    path: &str,
    id: &str,
    field: &str,
    argv: &Vec<String>,
    result: Result<(), String>,
)
    requires
        call_ensures(validate_resource_cli_command, (path, id, field, argv), result),
    ensures
        result is Ok <==> argv@.len() > 0 && argv@[0]@.len() > 0 && !text::is_space(argv@[0]@[0])
            && !text::is_space(argv@[0]@.last()),
{
}

/// An input without an alias that has no words can always be given to the aliases.
pub proof fn worded_aliases_meet_every_input(config: &AliasConfig, input: &str, meets: bool)
    requires
        call_ensures(AliasConfig::meets_wordless_alias, (config, input), meets),
    ensures
        (forall|i: int|
            0 <= i < config.entries@.len() ==> words::words(
                (#[trigger] config.entries@[i]).from@,
            ).len() > 0) ==> !meets,
        input@.len() > 0 && input@[0] == ':' ==> !meets,
        config.entries@.len() > 0 && words::words(config.entries@[0].from@).len() == 0 && !(
        input@.len() > 0 && input@[0] == ':') ==> meets,
{
    if config.entries@.len() > 0 && words::words(config.entries@[0].from@).len() == 0 {
        assert(reaches_wordless_alias(config.entries@, input@));
    }
}

} // verus!
