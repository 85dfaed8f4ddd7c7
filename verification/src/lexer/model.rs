//! What tokenizing means: the tokens and diagnostics of a source text, as
//! functions of its characters.

use vstd::prelude::*;
use vstd::utf8::*;
use crate::error::Diagnostic;
use crate::text::decimal;
use crate::token::{TokenKind, TokenView};

verus! {

/// A letter of an identifier: an ASCII letter or an underscore.
pub open spec fn letter(c: char) -> bool {
    ('a' <= c && c <= 'z') || ('A' <= c && c <= 'Z') || c == '_'
}

/// An ASCII decimal digit.
pub open spec fn digit(c: char) -> bool {
    '0' <= c && c <= '9'
}

/// A character of the operator alphabet.
pub open spec fn op_char(c: char) -> bool {
    c == '!' || c == '$' || c == '%' || c == '&' || c == '*' || c == '+' || c == '.' || c == '/'
        || c == '<' || c == '=' || c == '>' || c == '?' || c == '@' || c == '\\' || c == '^'
        || c == '-' || c == '~' || c == '{' || c == '}'
}

/// The sets of characters that a run is made of.
#[derive(Clone, Copy, Debug, PartialEq, Eq, Structural)]
pub enum CharClass {
    /// Letters and underscores: the characters of an identifier.
    Letter,
    /// Decimal digits: the characters of a number.
    Digit,
    /// The operator alphabet.
    Symbol,
    /// Everything but a double quote: the characters inside a string.
    Quoted,
}

pub open spec fn in_class(class: CharClass, c: char) -> bool {
    match class {
        CharClass::Letter => letter(c),
        CharClass::Digit => digit(c),
        CharClass::Symbol => op_char(c),
        CharClass::Quoted => c != '"',
    }
}

/// How many characters of `class` stand in a row in `src`, beginning at
/// `from`. The run ends at the first character outside the class, or with
/// the text.
pub open spec fn run_len(src: Seq<char>, from: int, class: CharClass) -> nat
    decreases src.len() - from,
{
    if 0 <= from < src.len() && in_class(class, src[from]) {
        1 + run_len(src, from + 1, class)
    } else {
        0
    }
}

/// The two characters `*#`, which close a comment, stand at `at`.
pub open spec fn closes_comment(src: Seq<char>, at: int) -> bool {
    0 <= at && at + 1 < src.len() && src[at] == '*' && src[at + 1] == '#'
}

/// How many characters the text of a comment has that begins at `from`: the
/// text ends before a newline, before `*#`, or with the source.
pub open spec fn comment_len(src: Seq<char>, from: int) -> nat
    decreases src.len() - from,
{
    if 0 <= from < src.len() && src[from] != '\n' && !closes_comment(src, from) {
        1 + comment_len(src, from + 1)
    } else {
        0
    }
}

/// Four spaces stand at `at`.
pub open spec fn four_spaces(src: Seq<char>, at: int) -> bool {
    0 <= at && at + 3 < src.len() && src[at] == ' ' && src[at + 1] == ' ' && src[at + 2] == ' '
        && src[at + 3] == ' '
}

/// The number of bytes of the UTF-8 encoding of `c`.
pub open spec fn width(c: char) -> nat {
    encode_scalar(c as u32).len()
}

/// The byte offset in the UTF-8 text of the character with index `at`: the
/// number of bytes that encode the characters before it.
pub open spec fn byte_offset(src: Seq<char>, at: int) -> nat {
    encode_utf8(src.take(at)).len()
}

/// The kind of token a word is: a keyword, or else an identifier.
pub open spec fn word_kind(word: Seq<char>) -> TokenKind {
    if word == "if"@ {
        TokenKind::If
    } else if word == "else"@ {
        TokenKind::Else
    } else if word == "in"@ {
        TokenKind::In
    } else {
        TokenKind::Ident(word)
    }
}

/// The diagnostic for a string that is still open where the source ends.
/// `offset` is the byte offset of the opening quote.
pub open spec fn unterminated_string(offset: nat) -> Diagnostic {
    Diagnostic { message: "unterminated string"@, offset: Some(offset) }
}

/// The diagnostic for a character that begins no token.
pub open spec fn unrecognized_character(c: char, offset: nat) -> Diagnostic {
    Diagnostic {
        message: "unrecognized character `"@.push(c) + "` at offset "@ + decimal(offset),
        offset: Some(offset),
    }
}

/// What one attempt to scan a token yields: how many characters it takes,
/// and the kind of the token, or the diagnostic where there is none.
pub struct Scan {
    pub len: nat,
    pub found: Result<TokenKind, Diagnostic>,
}

pub open spec fn scanned(len: nat, kind: TokenKind) -> Scan {
    Scan { len, found: Ok(kind) }
}

/// The attempt to scan a token at `at`, the index of a character of `src`.
pub open spec fn scan(src: Seq<char>, at: int) -> Scan
    recommends
        0 <= at < src.len(),
{
    let c = src[at];
    if c == '(' {
        scanned(1, TokenKind::LParen)
    } else if c == ')' {
        scanned(1, TokenKind::RParen)
    } else if c == '[' {
        scanned(1, TokenKind::LBracket)
    } else if c == ',' {
        scanned(1, TokenKind::Comma)
    } else if c == ']' {
        scanned(1, TokenKind::RBracket)
    } else if c == '|' {
        scanned(1, TokenKind::Pipe)
    } else if c == '#' {
        let n = comment_len(src, at + 1);
        let text = src.subrange(at + 1, at + 1 + n);
        if closes_comment(src, at + 1 + n) {
            scanned(n + 3, TokenKind::Comment(text))
        } else {
            scanned(n + 1, TokenKind::Comment(text))
        }
    } else if c == '\n' {
        if at + 1 < src.len() && src[at + 1] == '\r' {
            scanned(2, TokenKind::Newline)
        } else {
            scanned(1, TokenKind::Newline)
        }
    } else if c == '\r' {
        if at + 1 < src.len() && src[at + 1] == '\n' {
            scanned(2, TokenKind::Newline)
        } else {
            scanned(1, TokenKind::Newline)
        }
    } else if c == ':' {
        if at + 1 < src.len() && src[at + 1] == '=' {
            scanned(2, TokenKind::Assign)
        } else {
            scanned(1, TokenKind::Colon)
        }
    } else if c == '\t' {
        scanned(1, TokenKind::Tab)
    } else if c == ' ' {
        if four_spaces(src, at) {
            scanned(4, TokenKind::Tab)
        } else {
            scanned(1, TokenKind::Space)
        }
    } else if c == '"' {
        let n = run_len(src, at + 1, CharClass::Quoted);
        if at + 1 + n < src.len() {
            scanned(n + 2, TokenKind::Str(src.subrange(at + 1, at + 1 + n)))
        } else {
            Scan { len: n + 1, found: Err(unterminated_string(byte_offset(src, at))) }
        }
    } else if op_char(c) {
        let n = run_len(src, at + 1, CharClass::Symbol);
        scanned(n + 1, TokenKind::Operator(src.subrange(at, at + 1 + n)))
    } else if digit(c) {
        let n = run_len(src, at + 1, CharClass::Digit);
        scanned(n + 1, TokenKind::Number(src.subrange(at, at + 1 + n)))
    } else if letter(c) {
        let n = run_len(src, at + 1, CharClass::Letter);
        scanned(n + 1, word_kind(src.subrange(at, at + 1 + n)))
    } else {
        Scan { len: 1, found: Err(unrecognized_character(c, byte_offset(src, at))) }
    }
}

/// How many characters of `src` stand at or after `at`.
pub open spec fn rest_len(src: Seq<char>, at: int) -> nat {
    if 0 <= at < src.len() {
        (src.len() - at) as nat
    } else {
        0
    }
}

/// What asking for the next token yields: the token, if the source holds
/// another one; the index at which scanning goes on; and the diagnostics of
/// the attempts that failed on the way.
pub struct Step {
    pub token: Option<TokenView>,
    pub end: int,
    pub diagnostics: Seq<Diagnostic>,
}

/// The next token of `src` at or after `at`. Attempts that fail are passed
/// over, each leaving its diagnostic.
pub open spec fn next_token(src: Seq<char>, at: int) -> Step
    decreases rest_len(src, at),
{
    if 0 <= at < src.len() {
        let attempt = scan(src, at);
        match attempt.found {
            Ok(kind) => Step {
                token: Some(TokenView { kind, offset: byte_offset(src, at) }),
                end: at + attempt.len,
                diagnostics: Seq::empty(),
            },
            Err(diagnostic) => {
                let rest = next_token(src, at + attempt.len);
                Step {
                    token: rest.token,
                    end: rest.end,
                    diagnostics: seq![diagnostic] + rest.diagnostics,
                }
            },
        }
    } else {
        Step { token: None, end: at, diagnostics: Seq::empty() }
    }
}

/// The tokens of `src` from `at` on, in order.
pub open spec fn tokens_from(src: Seq<char>, at: int) -> Seq<TokenView>
    decreases rest_len(src, at),
{
    if 0 <= at < src.len() {
        let attempt = scan(src, at);
        let rest = tokens_from(src, at + attempt.len);
        match attempt.found {
            Ok(kind) => seq![TokenView { kind, offset: byte_offset(src, at) }] + rest,
            Err(_) => rest,
        }
    } else {
        Seq::empty()
    }
}

/// The diagnostics of tokenizing `src` from `at` on, in order.
pub open spec fn diagnostics_from(src: Seq<char>, at: int) -> Seq<Diagnostic>
    decreases rest_len(src, at),
{
    if 0 <= at < src.len() {
        let attempt = scan(src, at);
        let rest = diagnostics_from(src, at + attempt.len);
        match attempt.found {
            Ok(_) => rest,
            Err(diagnostic) => seq![diagnostic] + rest,
        }
    } else {
        Seq::empty()
    }
}

/// A scanning attempt inside the source takes at least one character and
/// stays inside the source.
pub proof fn lemma_scan_bounds(src: Seq<char>, at: int)
    requires
        0 <= at < src.len(),
    ensures
        1 <= scan(src, at).len,
        at + scan(src, at).len <= src.len(),
{
    lemma_run_bounds(src, at + 1, CharClass::Quoted);
    lemma_run_bounds(src, at + 1, CharClass::Symbol);
    lemma_run_bounds(src, at + 1, CharClass::Digit);
    lemma_run_bounds(src, at + 1, CharClass::Letter);
    lemma_comment_bounds(src, at + 1);
}

/// A run stays inside the source.
pub proof fn lemma_run_bounds(src: Seq<char>, from: int, class: CharClass)
    requires
        0 <= from <= src.len(),
    ensures
        from + run_len(src, from, class) <= src.len(),
    decreases src.len() - from,
{
    if from < src.len() && in_class(class, src[from]) {
        lemma_run_bounds(src, from + 1, class);
    }
}

/// The text of a comment stays inside the source.
pub proof fn lemma_comment_bounds(src: Seq<char>, from: int)
    requires
        0 <= from <= src.len(),
    ensures
        from + comment_len(src, from) <= src.len(),
    decreases src.len() - from,
{
    if from < src.len() && src[from] != '\n' && !closes_comment(src, from) {
        lemma_comment_bounds(src, from + 1);
    }
}

/// A stretch of characters of one class that ends where the class or the
/// source does is a whole run.
pub proof fn lemma_run_is(src: Seq<char>, from: int, to: int, class: CharClass)
    requires
        0 <= from <= to <= src.len(),
        forall|j: int| from <= j < to ==> in_class(class, #[trigger] src[j]),
        to == src.len() || !in_class(class, src[to]),
    ensures
        run_len(src, from, class) == to - from,
    decreases to - from,
{
    if from < to {
        lemma_run_is(src, from + 1, to, class);
    }
}

/// A stretch of characters none of which ends a comment, up to one that
/// does, is the whole text of the comment.
pub proof fn lemma_comment_is(src: Seq<char>, from: int, to: int)
    requires
        0 <= from <= to <= src.len(),
        forall|j: int| from <= j < to ==> #[trigger] src[j] != '\n' && !closes_comment(src, j),
        to == src.len() || src[to] == '\n' || closes_comment(src, to),
    ensures
        comment_len(src, from) == to - from,
    decreases to - from,
{
    if from < to {
        lemma_comment_is(src, from + 1, to);
    }
}

/// Appending a character to a text appends its encoding to the text's.
pub proof fn lemma_encode_push(chars: Seq<char>, c: char)
    ensures
        encode_utf8(chars.push(c)) == encode_utf8(chars) + encode_scalar(c as u32),
    decreases chars.len(),
{
    if chars.len() == 0 {
        assert(chars.push(c).drop_first() =~= Seq::<char>::empty());
        assert(encode_utf8(chars.push(c)) =~= encode_scalar(c as u32) + encode_utf8(
            Seq::<char>::empty(),
        ));
    } else {
        lemma_encode_push(chars.drop_first(), c);
        assert(chars.push(c).drop_first() =~= chars.drop_first().push(c));
    }
}

/// The offset of a character is the offset of the one before it plus that
/// one's width.
pub proof fn lemma_offset_step(src: Seq<char>, at: int)
    requires
        0 <= at < src.len(),
    ensures
        byte_offset(src, at + 1) == byte_offset(src, at) + width(src[at]),
        1 <= width(src[at]) <= 4,
{
    assert(src.take(at + 1) =~= src.take(at).push(src[at]));
    lemma_encode_push(src.take(at), src[at]);
    char_is_scalar(src[at]);
}

/// Offsets grow with the index.
pub proof fn lemma_offset_monotonic(src: Seq<char>, a: int, b: int)
    requires
        0 <= a <= b <= src.len(),
    ensures
        byte_offset(src, a) <= byte_offset(src, b),
    decreases b - a,
{
    if a < b {
        lemma_offset_monotonic(src, a, b - 1);
        lemma_offset_step(src, b - 1);
    }
}

/// Asking for the next token stays inside the source, and finds none only
/// at its end.
pub proof fn lemma_next_token_bounds(src: Seq<char>, at: int)
    requires
        0 <= at <= src.len(),
    ensures
        at <= next_token(src, at).end <= src.len(),
        next_token(src, at).token is Some ==> at < next_token(src, at).end,
        next_token(src, at).token is None ==> next_token(src, at).end == src.len(),
    decreases src.len() - at,
{
    if at < src.len() {
        lemma_scan_bounds(src, at);
        if scan(src, at).found is Err {
            lemma_next_token_bounds(src, at + scan(src, at).len);
        }
    }
}

/// The tokens of a source are its next token followed by the tokens after
/// it, and likewise for the diagnostics.
pub proof fn lemma_tokens_unfold(src: Seq<char>, at: int)
    requires
        0 <= at <= src.len(),
    ensures
        ({
            let step = next_token(src, at);
            match step.token {
                Some(token) => {
                    &&& tokens_from(src, at) == seq![token] + tokens_from(src, step.end)
                    &&& diagnostics_from(src, at) == step.diagnostics + diagnostics_from(
                        src,
                        step.end,
                    )
                },
                None => {
                    &&& tokens_from(src, at) == Seq::<TokenView>::empty()
                    &&& diagnostics_from(src, at) == step.diagnostics
                },
            }
        }),
    decreases src.len() - at,
{
    if at < src.len() {
        lemma_scan_bounds(src, at);
        let attempt = scan(src, at);
        if attempt.found is Err {
            lemma_tokens_unfold(src, at + attempt.len);
        }
    }
}

} // verus!
