//! What holds of every tokenization.

use vstd::prelude::*;
use crate::error::Diagnostic;
use crate::lexer::model::{
    byte_offset, closes_comment, comment_len, diagnostics_from, digit, four_spaces, in_class,
    lemma_comment_bounds, lemma_offset_step, lemma_run_bounds, lemma_run_is, lemma_scan_bounds,
    letter, op_char, run_len, scan, tokens_from, unrecognized_character, unterminated_string,
    CharClass,
};
use crate::lexer::Lexer;
use crate::token::{TokenKind, TokenView};

verus! {

/// One of the seven characters that are a token by themselves.
pub open spec fn structural(c: char) -> bool {
    c == '(' || c == ')' || c == '[' || c == ']' || c == ',' || c == '|' || c == '#'
}

/// The kind of the token that a structural character is when nothing
/// follows it that it would take in: a `#` is then a comment without text.
pub open spec fn structural_kind(c: char) -> TokenKind {
    if c == '(' {
        TokenKind::LParen
    } else if c == ')' {
        TokenKind::RParen
    } else if c == '[' {
        TokenKind::LBracket
    } else if c == ']' {
        TokenKind::RBracket
    } else if c == ',' {
        TokenKind::Comma
    } else if c == '|' {
        TokenKind::Pipe
    } else {
        TokenKind::Comment(Seq::empty())
    }
}

/// A character that begins no token.
pub open spec fn unrecognized(c: char) -> bool {
    !structural(c) && c != '\n' && c != '\r' && c != ':' && c != '\t' && c != ' ' && c != '"'
        && !op_char(c) && !digit(c) && !letter(c)
}

/// The text of `n` spaces.
pub open spec fn spaces(n: nat) -> Seq<char> {
    Seq::new(n, |i: int| ' ')
}

/// The tokens of `n` spaces that begin at byte `from`: a tab for every four
/// of them, then a space for each that is left.
pub open spec fn space_tokens(n: nat, from: nat) -> Seq<TokenView> {
    Seq::new(
        n / 4 + n % 4,
        |i: int|
            if i < n / 4 {
                TokenView { kind: TokenKind::Tab, offset: (from + 4 * i) as nat }
            } else {
                TokenView {
                    kind: TokenKind::Space,
                    offset: (from + 4 * (n / 4) + (i - n / 4)) as nat,
                }
            },
    )
}

/// Where every character before `at` is ASCII, the byte offset of `at` is
/// `at` itself.
pub proof fn lemma_ascii_offset(src: Seq<char>, at: int)
    requires
        0 <= at <= src.len(),
        forall|i: int| 0 <= i < at ==> (#[trigger] src[i] as u32) < 0x80,
    ensures
        byte_offset(src, at) == at,
    decreases at,
{
    if at > 0 {
        lemma_ascii_offset(src, at - 1);
        lemma_offset_step(src, at - 1);
    }
}

/// A source of structural characters alone, in which a `#` stands at most
/// at the very end, has one token for each character, in order, at the
/// offset that is the index of the character, and no diagnostic. (A `#`
/// that something follows takes the rest of the line into its comment.)
pub proof fn lemma_structural_tokens(src: Seq<char>)
    requires
        forall|i: int| 0 <= i < src.len() ==> structural(#[trigger] src[i]),
        forall|i: int| 0 <= i < src.len() - 1 ==> #[trigger] src[i] != '#',
    ensures
        tokens_from(src, 0) == Seq::new(
            src.len(),
            |i: int| TokenView { kind: structural_kind(src[i]), offset: i as nat },
        ),
        diagnostics_from(src, 0) == Seq::<Diagnostic>::empty(),
{
    lemma_structural_tokens_from(src, 0);
}

proof fn lemma_structural_tokens_from(src: Seq<char>, at: int)
    requires
        0 <= at <= src.len(),
        forall|i: int| 0 <= i < src.len() ==> structural(#[trigger] src[i]),
        forall|i: int| 0 <= i < src.len() - 1 ==> #[trigger] src[i] != '#',
    ensures
        tokens_from(src, at) == Seq::new(
            (src.len() - at) as nat,
            |k: int| TokenView { kind: structural_kind(src[at + k]), offset: (at + k) as nat },
        ),
        diagnostics_from(src, at) == Seq::<Diagnostic>::empty(),
    decreases src.len() - at,
{
    if at < src.len() {
        assert forall|i: int| 0 <= i < at implies (#[trigger] src[i] as u32) < 0x80 by {}
        lemma_ascii_offset(src, at);
        lemma_structural_tokens_from(src, at + 1);
        if src[at] == '#' {
            assert(src.subrange(at + 1, at + 1) =~= Seq::<char>::empty());
        }
    }
}

/// The tokens of a run of `n` spaces, and of nothing else: a tab for every
/// four spaces, then a space for each of the one, two or three that are
/// left; and no diagnostic.
pub proof fn lemma_space_tokens(n: nat)
    ensures
        tokens_from(spaces(n), 0) == space_tokens(n, 0),
        diagnostics_from(spaces(n), 0) == Seq::<Diagnostic>::empty(),
{
    lemma_space_tokens_from(n, 0);
}

proof fn lemma_space_tokens_from(n: nat, at: int)
    requires
        0 <= at <= n,
    ensures
        tokens_from(spaces(n), at) == space_tokens((n - at) as nat, at as nat),
        diagnostics_from(spaces(n), at) == Seq::<Diagnostic>::empty(),
    decreases n - at,
{
    let src = spaces(n);
    let left = (n - at) as nat;
    if at < n {
        assert forall|i: int| 0 <= i < at implies (#[trigger] src[i] as u32) < 0x80 by {}
        lemma_ascii_offset(src, at);
        if left >= 4 {
            lemma_space_tokens_from(n, at + 4);
        } else {
            assert(!four_spaces(src, at));
            lemma_space_tokens_from(n, at + 1);
        }
    }
}

/// Tokenizing is a function of the text: two tokenizers that stand at the
/// same place of the same source have the same tokens and the same
/// diagnostics to come. So have two fresh tokenizers of one text.
pub proof fn lemma_same_source_same_tokens(first: Lexer, second: Lexer)
    requires
        first.source() == second.source(),
        first.position() == second.position(),
    ensures
        first.remaining_tokens() == second.remaining_tokens(),
        first.remaining_diagnostics() == second.remaining_diagnostics(),
{
}

/// A source without characters has no tokens and no diagnostics.
pub proof fn lemma_empty_source()
    ensures
        tokens_from(Seq::<char>::empty(), 0) == Seq::<TokenView>::empty(),
        diagnostics_from(Seq::<char>::empty(), 0) == Seq::<Diagnostic>::empty(),
{
}

/// A character that begins no token costs one diagnostic and nothing else:
/// the tokens are those of the text behind it, and the diagnostics are its
/// own, then those of the text behind it.
pub proof fn lemma_unrecognized_is_isolated(src: Seq<char>, at: int)
    requires
        0 <= at < src.len(),
        unrecognized(src[at]),
    ensures
        tokens_from(src, at) == tokens_from(src, at + 1),
        diagnostics_from(src, at) == seq![
            unrecognized_character(src[at], byte_offset(src, at)),
        ] + diagnostics_from(src, at + 1),
{
}

/// A string that is never closed costs one diagnostic and takes the rest
/// of the source with it: from its opening quote on there are no tokens,
/// and the one diagnostic points at the quote.
pub proof fn lemma_unterminated_string(src: Seq<char>, at: int)
    requires
        0 <= at < src.len(),
        src[at] == '"',
        forall|j: int| at < j < src.len() ==> #[trigger] src[j] != '"',
    ensures
        tokens_from(src, at) == Seq::<TokenView>::empty(),
        diagnostics_from(src, at) == seq![unterminated_string(byte_offset(src, at))],
{
    lemma_run_is(src, at + 1, src.len() as int, CharClass::Quoted);
    assert(tokens_from(src, src.len() as int) == Seq::<TokenView>::empty());
    assert(diagnostics_from(src, src.len() as int) == Seq::<Diagnostic>::empty());
}

/// What the text of a token of each kind is made of: a number of one digit
/// or more; an identifier of one letter or more, and it is no keyword; an
/// operator of one operator symbol or more; a string of anything but
/// double quotes; a comment of anything but newlines.
pub open spec fn well_formed(kind: TokenKind) -> bool {
    match kind {
        TokenKind::Number(digits) => digits.len() >= 1 && forall|i: int|
            0 <= i < digits.len() ==> digit(#[trigger] digits[i]),
        TokenKind::Ident(word) => {
            &&& word.len() >= 1
            &&& forall|i: int| 0 <= i < word.len() ==> letter(#[trigger] word[i])
            &&& word != "if"@ && word != "else"@ && word != "in"@
        },
        TokenKind::Operator(symbols) => symbols.len() >= 1 && forall|i: int|
            0 <= i < symbols.len() ==> op_char(#[trigger] symbols[i]),
        TokenKind::Str(text) => forall|i: int| 0 <= i < text.len() ==> #[trigger] text[i] != '"',
        TokenKind::Comment(text) => forall|i: int|
            0 <= i < text.len() ==> #[trigger] text[i] != '\n',
        _ => true,
    }
}

/// Every character of a run belongs to the class of the run.
pub proof fn lemma_run_in_class(src: Seq<char>, from: int, class: CharClass)
    requires
        0 <= from,
    ensures
        forall|j: int|
            from <= j < from + run_len(src, from, class) ==> in_class(class, #[trigger] src[j]),
    decreases src.len() - from,
{
    if from < src.len() && in_class(class, src[from]) {
        lemma_run_in_class(src, from + 1, class);
    }
}

/// The text of a comment holds no newline.
pub proof fn lemma_comment_on_one_line(src: Seq<char>, from: int)
    requires
        0 <= from,
    ensures
        forall|j: int| from <= j < from + comment_len(src, from) ==> #[trigger] src[j] != '\n',
    decreases src.len() - from,
{
    if from < src.len() && src[from] != '\n' && !closes_comment(src, from) {
        lemma_comment_on_one_line(src, from + 1);
    }
}

/// A token that is scanned is well formed.
pub proof fn lemma_scan_well_formed(src: Seq<char>, at: int)
    requires
        0 <= at < src.len(),
    ensures
        scan(src, at).found matches Ok(kind) ==> well_formed(kind),
{
    lemma_run_in_class(src, at + 1, CharClass::Quoted);
    lemma_run_in_class(src, at + 1, CharClass::Symbol);
    lemma_run_in_class(src, at + 1, CharClass::Digit);
    lemma_run_in_class(src, at + 1, CharClass::Letter);
    lemma_run_bounds(src, at + 1, CharClass::Quoted);
    lemma_run_bounds(src, at + 1, CharClass::Symbol);
    lemma_run_bounds(src, at + 1, CharClass::Digit);
    lemma_run_bounds(src, at + 1, CharClass::Letter);
    lemma_comment_on_one_line(src, at + 1);
    lemma_comment_bounds(src, at + 1);
}

/// Every token of a tokenization is well formed.
pub proof fn lemma_tokens_well_formed(src: Seq<char>, at: int)
    requires
        0 <= at,
    ensures
        forall|k: int|
            0 <= k < tokens_from(src, at).len() ==> well_formed(
                (#[trigger] tokens_from(src, at)[k]).kind,
            ),
    decreases src.len() - at,
{
    if at < src.len() {
        lemma_scan_bounds(src, at);
        lemma_scan_well_formed(src, at);
        lemma_tokens_well_formed(src, at + scan(src, at).len);
    }
}

} // verus!
