//! Hints for inputs that look like shell syntax.
use crate::text;
use crate::text::{contains, join3};
use vstd::prelude::*;

verus! {

pub const SEPARATOR_HINT: &'static str =
    "cue-shell does not use ';' command separators; use a script submission or cue-shell chain operators such as '->' or '~>'";

pub const SUBSTITUTION_HINT: &'static str =
    "command substitution is shell syntax; use an explicit helper command/script instead";

pub const REDIRECTION_HINT: &'static str =
    "redirection is shell syntax; use cue-shell pipes '|>'/'|&>' or write/read files explicitly";

pub const PIPE_HINT: &'static str =
    "bare '|' is shell syntax; use cue-shell '|>' for stdout pipes or '|&>' for stdout+stderr pipes";

/// The input separates commands as a shell does.
pub open spec fn looks_separated(input: Seq<char>) -> bool {
    text::holds(input, ";"@)
}

/// The input substitutes commands as a shell does.
pub open spec fn looks_substituted(input: Seq<char>) -> bool {
    text::holds(input, "$("@) || text::holds(input, "`"@)
}

/// The input redirects as a shell does.
pub open spec fn looks_redirected(input: Seq<char>) -> bool {
    text::holds(input, "2>"@) || text::holds(input, "1>"@) || text::holds(input, " >"@)
        || text::holds(input, "<"@)
}

/// The input pipes as a shell does, and not as this one.
pub open spec fn looks_piped(input: Seq<char>) -> bool {
    text::holds(input, " | "@) && !text::holds(input, "|>"@) && !text::holds(input, "|&>"@)
        && !text::holds(input, "|!>"@)
}

/// A hint, if it applies.
pub open spec fn hint_if(applies: bool, hint: Seq<char>) -> Seq<Seq<char>> {
    if applies {
        seq![hint]
    } else {
        Seq::empty()
    }
}

/// The hints for an input.
pub open spec fn hints_for(input: Seq<char>) -> Seq<Seq<char>> {
    hint_if(looks_separated(input), SEPARATOR_HINT@) + hint_if(
        looks_substituted(input),
        SUBSTITUTION_HINT@,
    ) + hint_if(looks_redirected(input), REDIRECTION_HINT@) + hint_if(
        looks_piped(input),
        PIPE_HINT@,
    )
}

/// The texts of a list of literals.
pub open spec fn literal_texts(list: Seq<&'static str>) -> Seq<Seq<char>> {
    list.map_values(|text: &'static str| text@)
}

/// The hints for an input that could not be read.
pub fn bash_syntax_hints(input: &str) -> (hints: Vec<&'static str>)
    ensures
        literal_texts(hints@) == hints_for(input@),
{
    let mut hints: Vec<&'static str> = Vec::new();
    assert(literal_texts(hints@) =~= Seq::<Seq<char>>::empty());
    if contains(input, ";") {
        let ghost before = hints@;
        hints.push(SEPARATOR_HINT);
        assert(literal_texts(hints@) =~= literal_texts(before).push(SEPARATOR_HINT@));
    }
    assert(literal_texts(hints@) =~= hint_if(looks_separated(input@), SEPARATOR_HINT@));
    if contains(input, "$(") || contains(input, "`") {
        let ghost before = hints@;
        hints.push(SUBSTITUTION_HINT);
        assert(literal_texts(hints@) =~= literal_texts(before).push(SUBSTITUTION_HINT@));
    }
    assert(literal_texts(hints@) =~= hint_if(looks_separated(input@), SEPARATOR_HINT@) + hint_if(
        looks_substituted(input@),
        SUBSTITUTION_HINT@,
    ));
    if contains(input, "2>") || contains(input, "1>") || contains(input, " >") || contains(
        input,
        "<",
    ) {
        let ghost before = hints@;
        hints.push(REDIRECTION_HINT);
        assert(literal_texts(hints@) =~= literal_texts(before).push(REDIRECTION_HINT@));
    }
    assert(literal_texts(hints@) =~= hint_if(looks_separated(input@), SEPARATOR_HINT@) + hint_if(
        looks_substituted(input@),
        SUBSTITUTION_HINT@,
    ) + hint_if(looks_redirected(input@), REDIRECTION_HINT@));
    if contains(input, " | ") && !contains(input, "|>") && !contains(input, "|&>") && !contains(
        input,
        "|!>",
    ) {
        let ghost before = hints@;
        hints.push(PIPE_HINT);
        assert(literal_texts(hints@) =~= literal_texts(before).push(PIPE_HINT@));
    }
    assert(literal_texts(hints@) =~= hints_for(input@));
    hints
}

/// Lines with a separator between them, from place `i` on.
pub open spec fn joined_from(lines: Seq<Seq<char>>, separator: Seq<char>, i: int) -> Seq<char>
    decreases lines.len() - i,
{
    if i < 0 || i >= lines.len() {
        Seq::empty()
    } else if i == lines.len() - 1 {
        lines[i]
    } else {
        lines[i] + separator + joined_from(lines, separator, i + 1)
    }
}

/// The message for an input that could not be read: what the parser said, and the hints.
pub open spec fn syntax_message(input: Seq<char>, base: Seq<char>) -> Seq<char> {
    if hints_for(input).len() == 0 {
        base
    } else {
        base + "\n\nPossible bash syntax issue:\n- "@ + joined_from(
            hints_for(input),
            "\n- "@,
            0,
        )
    }
}

/// Adds the hints to what the parser said.
pub fn syntax_error_message(input: &str, base: &str) -> (message: String)
    ensures
        message@ == syntax_message(input@, base@),
{
    let hints = bash_syntax_hints(input);
    let ghost lines = hints_for(input@);
    assert(lines.len() == hints@.len());
    if hints.len() == 0 {
        return base.to_owned();
    }
    let last = hints.len() - 1;
    assert(lines[last as int] == literal_texts(hints@)[last as int]);
    let mut joined = hints[last].to_owned();
    let mut i: usize = last;
    while i > 0
        invariant
            i <= last,
            hints@.len() == last + 1,
            lines == literal_texts(hints@),
            lines.len() == last + 1,
            joined@ == joined_from(lines, "\n- "@, i as int),
        decreases i,
    {
        i = i - 1;
        assert(lines[i as int] == hints@[i as int]@);
        joined = join3(hints[i], "\n- ", joined.as_str());
    }
    join3(base, "\n\nPossible bash syntax issue:\n- ", joined.as_str())
}

proof fn lemma_holds_char(input: Seq<char>, c: char)
    ensures
        text::holds(input, seq![c]) <==> input.contains(c),
{
    if input.contains(c) {
        let i = input.index_of(c);
        assert(input.subrange(i, i + 1) =~= seq![c]);
        assert(text::occurs_at(input, seq![c], i));
    }
    if text::holds(input, seq![c]) {
        let i = choose|i: int| text::occurs_at(input, seq![c], i);
        assert(input.subrange(i, i + 1)[0] == input[i]);
        assert(seq![c][0] == c);
    }
}

proof fn lemma_holds_first(input: Seq<char>, part: Seq<char>, k: int)
    requires
        text::holds(input, part),
        0 <= k < part.len(),
    ensures
        input.contains(part[k]),
{
    let i = choose|i: int| text::occurs_at(input, part, i);
    assert(input.subrange(i, i + part.len())[k] == input[i + k]);
}

/// Each kind of shell syntax has its own hint, which is given exactly where that syntax occurs: a
/// semicolon; a substitution; a redirection; and a bar between blanks, where no pipe of this shell
/// is.
pub proof fn each_shell_syntax_has_its_hint(input: &str, hints: Vec<&'static str>)
    requires
        call_ensures(bash_syntax_hints, (input,), hints),
    ensures
        literal_texts(hints@).contains(SEPARATOR_HINT@) <==> input@.contains(';'),
        literal_texts(hints@).contains(SUBSTITUTION_HINT@) <==> input@.contains('`')
            || text::holds(input@, "$("@),
        literal_texts(hints@).contains(REDIRECTION_HINT@) <==> input@.contains('<') || text::holds(
            input@,
            "2>"@,
        ) || text::holds(input@, "1>"@) || text::holds(input@, " >"@),
        literal_texts(hints@).contains(PIPE_HINT@) <==> text::holds(input@, " | "@) && !text::holds(
            input@,
            "|>"@,
        ) && !text::holds(input@, "|&>"@) && !text::holds(input@, "|!>"@),
{
    reveal_strlit(";");
    reveal_strlit("`");
    reveal_strlit("<");
    assert(";"@ =~= seq![';']);
    assert("`"@ =~= seq!['`']);
    assert("<"@ =~= seq!['<']);
    lemma_holds_char(input@, ';');
    lemma_holds_char(input@, '`');
    lemma_holds_char(input@, '<');
    lemma_hints_differ();
    let a = hint_if(looks_separated(input@), SEPARATOR_HINT@);
    let b = hint_if(looks_substituted(input@), SUBSTITUTION_HINT@);
    let c = hint_if(looks_redirected(input@), REDIRECTION_HINT@);
    let d = hint_if(looks_piped(input@), PIPE_HINT@);
    let all = literal_texts(hints@);
    assert(all == a + b + c + d);
    if looks_separated(input@) {
        assert(all[0] == SEPARATOR_HINT@);
    }
    if looks_substituted(input@) {
        assert(all[a.len() as int] == SUBSTITUTION_HINT@);
    }
    if looks_redirected(input@) {
        assert(all[(a.len() + b.len()) as int] == REDIRECTION_HINT@);
    }
    if looks_piped(input@) {
        assert(all[(a.len() + b.len() + c.len()) as int] == PIPE_HINT@);
    }
    assert forall|i: int| 0 <= i < all.len() implies (#[trigger] all[i] == SEPARATOR_HINT@
        && looks_separated(input@)) || (all[i] == SUBSTITUTION_HINT@ && looks_substituted(input@))
        || (all[i] == REDIRECTION_HINT@ && looks_redirected(input@)) || (all[i] == PIPE_HINT@
        && looks_piped(input@)) by {}
}

proof fn lemma_hints_differ()
    ensures
        SEPARATOR_HINT@ != SUBSTITUTION_HINT@,
        SEPARATOR_HINT@ != REDIRECTION_HINT@,
        SEPARATOR_HINT@ != PIPE_HINT@,
        SUBSTITUTION_HINT@ != REDIRECTION_HINT@,
        SUBSTITUTION_HINT@ != PIPE_HINT@,
        REDIRECTION_HINT@ != PIPE_HINT@,
{
    reveal_strlit(
        "cue-shell does not use ';' command separators; use a script submission or cue-shell chain operators such as '->' or '~>'",
    );
    reveal_strlit(
        "command substitution is shell syntax; use an explicit helper command/script instead",
    );
    reveal_strlit(
        "redirection is shell syntax; use cue-shell pipes '|>'/'|&>' or write/read files explicitly",
    );
    reveal_strlit(
        "bare '|' is shell syntax; use cue-shell '|>' for stdout pipes or '|&>' for stdout+stderr pipes",
    );
    assert(SEPARATOR_HINT@[1] == 'u');
    assert(SUBSTITUTION_HINT@[1] == 'o');
    assert(REDIRECTION_HINT@[1] == 'e');
    assert(PIPE_HINT@[1] == 'a');
}

/// What the parser said is always told first. An input without any sign of a shell gets nothing
/// besides.
pub proof fn parser_is_heard_first(input: &str, base: &str, message: String)
    requires
        call_ensures(syntax_error_message, (input, base), message),
    ensures
        base@.is_prefix_of(message@),
        !input@.contains(';') && !input@.contains('`') && !input@.contains('$') && !input@.contains(
            '<',
        ) && !input@.contains('>') && !input@.contains('|') ==> message@ == base@,
        input@.contains(';') ==> message@.len() > base@.len(),
{
    reveal_strlit(";");
    reveal_strlit("`");
    reveal_strlit("<");
    reveal_strlit("$(");
    reveal_strlit("2>");
    reveal_strlit("1>");
    reveal_strlit(" >");
    reveal_strlit(" | ");
    reveal_strlit("\n\nPossible bash syntax issue:\n- ");
    assert(";"@ =~= seq![';']);
    assert("`"@ =~= seq!['`']);
    assert("<"@ =~= seq!['<']);
    lemma_holds_char(input@, ';');
    lemma_holds_char(input@, '`');
    lemma_holds_char(input@, '<');
    if text::holds(input@, "$("@) {
        lemma_holds_first(input@, "$("@, 0);
    }
    if text::holds(input@, "2>"@) {
        lemma_holds_first(input@, "2>"@, 1);
    }
    if text::holds(input@, "1>"@) {
        lemma_holds_first(input@, "1>"@, 1);
    }
    if text::holds(input@, " >"@) {
        lemma_holds_first(input@, " >"@, 1);
    }
    if text::holds(input@, " | "@) {
        lemma_holds_first(input@, " | "@, 1);
    }
    assert(message@.take(base@.len() as int) =~= base@);
    if input@.contains(';') {
        assert(hints_for(input@)[0] == SEPARATOR_HINT@);
    }
}

} // verus!
