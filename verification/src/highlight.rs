//! Highlighting of an input by its tokens.
use vstd::prelude::*;

verus! {

/// A token of the command language.
#[derive(Clone, Copy, PartialEq, Eq, Structural, Debug)]
pub enum TokenKind {
    Command,
    ModeParenOpen,
    ModeParenClose,
    ParamEq,
    ParamValue,
    Comma,
    SerialThen,
    SerialAlways,
    ParallelAll,
    ParallelRace,
    JobAnd,
    JobOr,
    PipeStdout,
    PipeAll,
    PipeStderr,
    IdRef,
    Word,
    Colon,
    GroupOpen,
    GroupClose,
    Whitespace,
    Newline,
    Eof,
}

/// A token with the bytes that it takes.
#[derive(Clone, Copy, PartialEq, Eq, Structural, Debug)]
pub struct SpannedToken {
    pub kind: TokenKind,
    pub start: usize,
    pub end: usize,
}

#[derive(Clone, Copy, PartialEq, Eq, Structural, Debug)]
pub enum HighlightKind {
    CommandName,
    ModeParam,
    Operator,
    IdRef,
    Word,
    CommandPrefix,
    Error,
}

/// Bytes that are shown in one way.
#[derive(Clone, Copy, PartialEq, Eq, Structural, Debug)]
pub struct HighlightSpan {
    pub start: usize,
    pub end: usize,
    pub kind: HighlightKind,
}

/// How a token is shown, if it is.
pub open spec fn shown_as(kind: TokenKind) -> Option<HighlightKind> {
    match kind {
        TokenKind::Command => Some(HighlightKind::CommandName),
        TokenKind::ModeParenOpen => Some(HighlightKind::ModeParam),
        TokenKind::ModeParenClose => Some(HighlightKind::ModeParam),
        TokenKind::ParamEq => Some(HighlightKind::ModeParam),
        TokenKind::ParamValue => Some(HighlightKind::ModeParam),
        TokenKind::Comma => Some(HighlightKind::ModeParam),
        TokenKind::SerialThen => Some(HighlightKind::Operator),
        TokenKind::SerialAlways => Some(HighlightKind::Operator),
        TokenKind::ParallelAll => Some(HighlightKind::Operator),
        TokenKind::ParallelRace => Some(HighlightKind::Operator),
        TokenKind::JobAnd => Some(HighlightKind::Operator),
        TokenKind::JobOr => Some(HighlightKind::Operator),
        TokenKind::PipeStdout => Some(HighlightKind::Operator),
        TokenKind::PipeAll => Some(HighlightKind::Operator),
        TokenKind::PipeStderr => Some(HighlightKind::Operator),
        TokenKind::IdRef => Some(HighlightKind::IdRef),
        TokenKind::Word => Some(HighlightKind::Word),
        TokenKind::Colon => Some(HighlightKind::CommandPrefix),
        TokenKind::GroupOpen => Some(HighlightKind::Word),
        TokenKind::GroupClose => Some(HighlightKind::Word),
        TokenKind::Whitespace => None,
        TokenKind::Newline => None,
        TokenKind::Eof => None,
    }
}

/// How a token is shown, if it is.
pub fn token_highlight(kind: TokenKind) -> (shown: Option<HighlightKind>)
    ensures
        shown == shown_as(kind),
{
    match kind {
        TokenKind::Command => Some(HighlightKind::CommandName),
        TokenKind::ModeParenOpen | TokenKind::ModeParenClose | TokenKind::ParamEq
        | TokenKind::ParamValue | TokenKind::Comma => Some(HighlightKind::ModeParam),
        TokenKind::SerialThen | TokenKind::SerialAlways | TokenKind::ParallelAll
        | TokenKind::ParallelRace | TokenKind::JobAnd | TokenKind::JobOr | TokenKind::PipeStdout
        | TokenKind::PipeAll | TokenKind::PipeStderr => Some(HighlightKind::Operator),
        TokenKind::IdRef => Some(HighlightKind::IdRef),
        TokenKind::Word => Some(HighlightKind::Word),
        TokenKind::Colon => Some(HighlightKind::CommandPrefix),
        TokenKind::GroupOpen | TokenKind::GroupClose => Some(HighlightKind::Word),
        TokenKind::Whitespace | TokenKind::Newline | TokenKind::Eof => None,
    }
}

/// The spans of the first `n` tokens.
pub open spec fn token_spans(tokens: Seq<SpannedToken>, n: int) -> Seq<HighlightSpan>
    decreases n,
{
    if n <= 0 || n > tokens.len() {
        Seq::empty()
    } else {
        let token = tokens[n - 1];
        match shown_as(token.kind) {
            Some(kind) => token_spans(tokens, n - 1).push(
                HighlightSpan { start: token.start, end: token.end, kind },
            ),
            None => token_spans(tokens, n - 1),
        }
    }
}

/// The span of an error: one byte, unless the input ends there.
pub open spec fn error_span(position: usize, length: usize) -> HighlightSpan {
    HighlightSpan {
        start: position,
        end: if position < usize::MAX && position + 1 < length {
            (position + 1) as usize
        } else {
            length
        },
        kind: HighlightKind::Error,
    }
}

/// Highlights an input of `length` bytes, from its tokens or from the place where it could not be
/// read.
pub fn highlight_input(tokens: Result<Vec<SpannedToken>, usize>, length: usize) -> (spans: Vec<
    HighlightSpan,
>)
    ensures
        match tokens {
            Ok(tokens) => spans@ == token_spans(tokens@, tokens@.len() as int),
            Err(position) => spans@ == seq![error_span(position, length)],
        },
{
    let mut spans: Vec<HighlightSpan> = Vec::new();
    match tokens {
        Ok(tokens) => {
            for i in 0..tokens.len()
                invariant
                    spans@ == token_spans(tokens@, i as int),
            {
                let token = tokens[i];
                if let Some(kind) = token_highlight(token.kind) {
                    spans.push(HighlightSpan { start: token.start, end: token.end, kind });
                }
            }
        },
        Err(position) => {
            let end: usize = if position < length && position + 1 < length {
                position + 1
            } else {
                length
            };
            spans.push(HighlightSpan { start: position, end, kind: HighlightKind::Error });
            assert(spans@ =~= seq![error_span(position, length)]);
        },
    }
    spans
}

/// Every token is shown as what it is: operators alike, what belongs to the parameters of a command
/// alike, and groups as the words that they hold. What separates tokens is not shown, and no token is
/// shown as an error.
pub proof fn tokens_are_shown_as_what_they_are(kind: TokenKind, shown: Option<HighlightKind>)
    requires
        call_ensures(token_highlight, (kind,), shown),
    ensures
        shown is None <==> kind is Whitespace || kind is Newline || kind is Eof,
        shown == Some(HighlightKind::CommandName) <==> kind is Command,
        shown == Some(HighlightKind::CommandPrefix) <==> kind is Colon,
        shown == Some(HighlightKind::IdRef) <==> kind is IdRef,
        shown == Some(HighlightKind::ModeParam) <==> kind is ModeParenOpen || kind is ModeParenClose
            || kind is ParamEq || kind is ParamValue || kind is Comma,
        shown == Some(HighlightKind::Word) <==> kind is Word || kind is GroupOpen || kind
            is GroupClose,
        shown == Some(HighlightKind::Operator) <==> kind is SerialThen || kind is SerialAlways
            || kind is ParallelAll || kind is ParallelRace || kind is JobAnd || kind is JobOr
            || kind is PipeStdout || kind is PipeAll || kind is PipeStderr,
        shown != Some(HighlightKind::Error),
{
}

proof fn lemma_shown_token(tokens: Seq<SpannedToken>, n: int, i: int)
    requires
        0 <= i < n <= tokens.len(),
        shown_as(tokens[i].kind) is Some,
    ensures
        token_spans(tokens, n).contains(
            HighlightSpan {
                start: tokens[i].start,
                end: tokens[i].end,
                kind: shown_as(tokens[i].kind)->0,
            },
        ),
    decreases n,
{
    let span = HighlightSpan {
        start: tokens[i].start,
        end: tokens[i].end,
        kind: shown_as(tokens[i].kind)->0,
    };
    let spans = token_spans(tokens, n);
    if i == n - 1 {
        assert(spans[spans.len() - 1] == span);
    } else {
        lemma_shown_token(tokens, n - 1, i);
        let before = token_spans(tokens, n - 1);
        let k = before.index_of(span);
        assert(spans[k] == span);
    }
}

proof fn lemma_span_of_token(tokens: Seq<SpannedToken>, n: int, k: int) -> (i: int)
    requires
        0 <= n <= tokens.len(),
        0 <= k < token_spans(tokens, n).len(),
    ensures
        0 <= i < n,
        token_spans(tokens, n)[k].start == tokens[i].start,
        token_spans(tokens, n)[k].end == tokens[i].end,
        shown_as(tokens[i].kind) == Some(token_spans(tokens, n)[k].kind),
    decreases n,
{
    let before = token_spans(tokens, n - 1);
    if k < before.len() {
        lemma_span_of_token(tokens, n - 1, k)
    } else {
        n - 1
    }
}

/// Every token that is shown is shown where it stands, and nothing else is: words, commands and
/// operators cover exactly their own bytes.
pub proof fn tokens_are_shown_where_they_stand(
    tokens: Vec<SpannedToken>,
    length: usize,
    spans: Vec<HighlightSpan>,
    i: int,
    k: int,
)
    requires
        call_ensures(highlight_input, (Ok::<Vec<SpannedToken>, usize>(tokens), length), spans),
        0 <= i < tokens@.len(),
    ensures
        tokens@[i].kind is Word ==> spans@.contains(
            HighlightSpan {
                start: tokens@[i].start,
                end: tokens@[i].end,
                kind: HighlightKind::Word,
            },
        ),
        tokens@[i].kind is Command ==> spans@.contains(
            HighlightSpan {
                start: tokens@[i].start,
                end: tokens@[i].end,
                kind: HighlightKind::CommandName,
            },
        ),
        tokens@[i].kind is SerialThen ==> spans@.contains(
            HighlightSpan {
                start: tokens@[i].start,
                end: tokens@[i].end,
                kind: HighlightKind::Operator,
            },
        ),
        0 <= k < spans@.len() ==> exists|j: int|
            0 <= j < tokens@.len() && (#[trigger] tokens@[j]).start == spans@[k].start
                && tokens@[j].end == spans@[k].end && !(tokens@[j].kind is Whitespace)
                && !(tokens@[j].kind is Newline) && !(tokens@[j].kind is Eof),
        spans@.len() <= tokens@.len(),
{
    let n = tokens@.len() as int;
    if shown_as(tokens@[i].kind) is Some {
        lemma_shown_token(tokens@, n, i);
    }
    if 0 <= k < spans@.len() {
        let j = lemma_span_of_token(tokens@, n, k);
        assert(tokens@[j].start == spans@[k].start);
    }
    lemma_spans_bounded(tokens@, n);
}

proof fn lemma_spans_bounded(tokens: Seq<SpannedToken>, n: int)
    requires
        0 <= n <= tokens.len(),
    ensures
        token_spans(tokens, n).len() <= n,
    decreases n,
{
    if n > 0 {
        lemma_spans_bounded(tokens, n - 1);
    }
}

/// An input that cannot be read shows one error: the byte at which it could not, or what is left of the
/// input behind its end.
pub proof fn error_is_shown_where_reading_stopped(
    position: usize,
    length: usize,
    spans: Vec<HighlightSpan>,
)
    requires
        call_ensures(
            highlight_input,
            (Err::<Vec<SpannedToken>, usize>(position), length),
            spans,
        ),
    ensures
        spans@.len() == 1,
        spans@[0].kind == HighlightKind::Error,
        spans@[0].start == position,
        position < length ==> spans@[0].end == position + 1,
        position >= length ==> spans@[0].end == length,
{
}

} // verus!
