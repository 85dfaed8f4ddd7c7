//! The tokenizer: cuts a source text into tokens in one pass from left to
//! right, noting the byte offset at which each begins. A character that
//! begins no token, or a string that is never closed, leaves a diagnostic
//! and scanning goes on behind it.

use vstd::prelude::*;
use vstd::string::StringExecFns;
use vstd::string::StrSliceExecFns;
use vstd::utf8::*;
use crate::error::{diagnostics, Diagnostic, RoughError, RoughResult};
use crate::lexer::model::{
    byte_offset, closes_comment, comment_len, diagnostics_from, digit, in_class, lemma_comment_is,
    lemma_next_token_bounds, lemma_offset_monotonic, lemma_offset_step, lemma_run_bounds,
    lemma_run_is, lemma_scan_bounds, lemma_tokens_unfold, letter, next_token, op_char, run_len,
    scan, tokens_from, unterminated_string, width, word_kind, CharClass,
};
use crate::text::push_decimal;
use crate::token::{token_views, Token, TokenType, TokenView};

pub mod laws;
pub mod model;

verus! {

/// A tokenizer over one source text. It hands out the tokens one at a time
/// and keeps the diagnostics of what it had to pass over.
pub struct Lexer {
    source: Vec<char>,
    /// Index into `source` of the next character to read.
    cursor: usize,
    /// Byte offset, in the UTF-8 text, of the next character to read.
    offset: usize,
    /// Length of the UTF-8 text in bytes.
    size: usize,
    errors: Vec<RoughError>,
}

impl Lexer {
    /// The characters of the source text.
    pub closed spec fn source(&self) -> Seq<char> {
        self.source@
    }

    /// The index of the next character to read.
    pub closed spec fn position(&self) -> int {
        self.cursor as int
    }

    /// The tokenizer stands inside its source and knows the byte offset of
    /// the place it stands at.
    pub closed spec fn wf(&self) -> bool {
        &&& self.cursor <= self.source.len()
        &&& self.offset == byte_offset(self.source@, self.cursor as int)
        &&& self.size == byte_offset(self.source@, self.source.len() as int)
    }

    /// The diagnostics recorded so far, in the order they arose.
    pub closed spec fn reported(&self) -> Seq<Diagnostic> {
        diagnostics(self.errors@)
    }

    /// The tokens still to come.
    pub open spec fn remaining_tokens(&self) -> Seq<TokenView> {
        tokens_from(self.source(), self.position())
    }

    /// The diagnostics still to come.
    pub open spec fn remaining_diagnostics(&self) -> Seq<Diagnostic> {
        diagnostics_from(self.source(), self.position())
    }

    /// A tokenizer at the beginning of `input`.
    pub fn new(input: &str) -> (r: Lexer)
        ensures
            r.wf(),
            r.source() == input@,
            r.position() == 0,
            r.reported() == Seq::<Diagnostic>::empty(),
    {
        let mut source: Vec<char> = Vec::new();
        for c in it: input.chars()
            invariant
                it.seq() == input@,
                source@ == it.seq().take(it.index() as int),
        {
            source.push(c);
        }
        let size = input.as_bytes().len();
        proof {
            assert(source@ =~= input@);
        }
        let errors: Vec<RoughError> = Vec::new();
        Lexer { source, cursor: 0, offset: 0, size, errors }
    }

    /// The diagnostics recorded so far.
    pub fn errors(&self) -> (r: &Vec<RoughError>)
        ensures
            diagnostics(r@) == self.reported(),
    {
        &self.errors
    }

    /// Ends the tokenizer and hands out the diagnostics it recorded.
    pub fn into_errors(self) -> (r: Vec<RoughError>)
        ensures
            diagnostics(r@) == self.reported(),
    {
        self.errors
    }

    /// Reads the next character.
    fn bump(&mut self) -> (c: char)
        requires
            old(self).wf(),
            old(self).position() < old(self).source().len(),
        ensures
            final(self).wf(),
            final(self).source() == old(self).source(),
            final(self).errors == old(self).errors,
            final(self).position() == old(self).position() + 1,
            c == old(self).source()[old(self).position()],
    {
        let c = self.source[self.cursor];
        proof {
            lemma_offset_step(self.source@, self.cursor as int);
            lemma_offset_monotonic(
                self.source@,
                self.cursor as int + 1,
                self.source.len() as int,
            );
        }
        self.offset = self.offset + len_utf8(c);
        self.cursor = self.cursor + 1;
        c
    }

    /// Whether the next character is `c`.
    fn at_char(&self, c: char) -> (r: bool)
        requires
            self.wf(),
        ensures
            r == (self.position() < self.source().len() && self.source()[self.position()] == c),
    {
        self.cursor < self.source.len() && self.source[self.cursor] == c
    }

    /// Reads the run of characters of `class` that begins at the cursor and
    /// appends it to `text`.
    fn read_run(&mut self, class: CharClass, text: &mut String)
        requires
            old(self).wf(),
        ensures
            final(self).wf(),
            final(self).source() == old(self).source(),
            final(self).errors == old(self).errors,
            ({
                let src = old(self).source();
                let from = old(self).position();
                let n = run_len(src, from, class);
                &&& final(self).position() == from + n
                &&& final(text)@ == old(text)@ + src.subrange(from, from + n)
            }),
    {
        let ghost src = self.source@;
        let ghost from = self.cursor as int;
        while self.cursor < self.source.len() && belongs(class, self.source[self.cursor])
            invariant
                self.wf(),
                self.source@ == src,
                self.errors == old(self).errors,
                0 <= from <= self.cursor <= src.len(),
                forall|j: int| from <= j < self.cursor ==> in_class(class, #[trigger] src[j]),
                text@ == old(text)@ + src.subrange(from, self.cursor as int),
            decreases src.len() - self.cursor,
        {
            let ghost at = self.cursor as int;
            let c = self.bump();
            text.push(c);
        }
        proof {
            lemma_run_is(src, from, self.cursor as int, class);
        }
    }

    /// Reads the rest of an identifier whose first character, `first`, has
    /// been read.
    fn read_identifier(&mut self, first: char) -> (word: String)
        requires
            old(self).wf(),
        ensures
            final(self).wf(),
            final(self).source() == old(self).source(),
            final(self).errors == old(self).errors,
            ({
                let src = old(self).source();
                let from = old(self).position();
                let n = run_len(src, from, CharClass::Letter);
                &&& final(self).position() == from + n
                &&& word@ == seq![first] + src.subrange(from, from + n)
            }),
    {
        let mut word = String::new();
        word.push(first);
        self.read_run(CharClass::Letter, &mut word);
        word
    }

    /// Reads a string whose opening quote has been read, up to and with the
    /// closing quote. Where the source ends first, all of it is read and the
    /// result is the diagnostic.
    fn read_string(&mut self) -> (r: RoughResult<String>)
        requires
            old(self).wf(),
            old(self).position() >= 1,
            old(self).source()[old(self).position() - 1] == '"',
        ensures
            final(self).wf(),
            final(self).source() == old(self).source(),
            final(self).errors == old(self).errors,
            ({
                let src = old(self).source();
                let from = old(self).position();
                let n = run_len(src, from, CharClass::Quoted);
                match r {
                    Ok(text) => {
                        &&& from + n < src.len()
                        &&& text@ == src.subrange(from, from + n)
                        &&& final(self).position() == from + n + 1
                    },
                    Err(errors) => {
                        &&& from + n == src.len()
                        &&& diagnostics(errors@) == seq![
                            unterminated_string(byte_offset(src, from - 1)),
                        ]
                        &&& final(self).position() == src.len()
                    },
                }
            }),
    {
        proof {
            lemma_offset_step(self.source@, self.cursor as int - 1);
            lemma_run_bounds(self.source@, self.cursor as int, CharClass::Quoted);
        }
        let opened_at = self.offset - 1;
        let mut string = String::new();
        self.read_run(CharClass::Quoted, &mut string);
        if self.cursor < self.source.len() {
            self.bump();
            Ok(string)
        } else {
            let mut errors: Vec<RoughError> = Vec::new();
            errors.push(RoughError::at("unterminated string".to_owned(), opened_at));
            Err(errors)
        }
    }

    /// Reads the rest of a run of operator symbols whose first character,
    /// `first`, has been read.
    fn read_operator(&mut self, first: char) -> (op: String)
        requires
            old(self).wf(),
        ensures
            final(self).wf(),
            final(self).source() == old(self).source(),
            final(self).errors == old(self).errors,
            ({
                let src = old(self).source();
                let from = old(self).position();
                let n = run_len(src, from, CharClass::Symbol);
                &&& final(self).position() == from + n
                &&& op@ == seq![first] + src.subrange(from, from + n)
            }),
    {
        let mut op = String::new();
        op.push(first);
        self.read_run(CharClass::Symbol, &mut op);
        op
    }

    /// Reads the rest of a number whose first digit, `first`, has been read.
    /// The result is the digits as written.
    fn read_number(&mut self, first: char) -> (number: String)
        requires
            old(self).wf(),
        ensures
            final(self).wf(),
            final(self).source() == old(self).source(),
            final(self).errors == old(self).errors,
            ({
                let src = old(self).source();
                let from = old(self).position();
                let n = run_len(src, from, CharClass::Digit);
                &&& final(self).position() == from + n
                &&& number@ == seq![first] + src.subrange(from, from + n)
            }),
    {
        let mut number = String::new();
        number.push(first);
        self.read_run(CharClass::Digit, &mut number);
        number
    }

    /// Reads a comment whose `#` has been read: its text, which ends before
    /// a newline or with the source, or before `*#`, which is read too.
    fn read_comment(&mut self) -> (comment: String)
        requires
            old(self).wf(),
        ensures
            final(self).wf(),
            final(self).source() == old(self).source(),
            final(self).errors == old(self).errors,
            ({
                let src = old(self).source();
                let from = old(self).position();
                let n = comment_len(src, from);
                &&& comment@ == src.subrange(from, from + n)
                &&& final(self).position() == if closes_comment(src, from + n) {
                    from + n + 2
                } else {
                    from + n
                }
            }),
    {
        let ghost src = self.source@;
        let ghost from = self.cursor as int;
        let mut comment = String::new();
        let mut closed = false;
        while !closed && self.cursor < self.source.len() && self.source[self.cursor] != '\n'
            invariant
                self.wf(),
                self.source@ == src,
                self.errors == old(self).errors,
                0 <= from <= self.cursor <= src.len(),
                !closed ==> {
                    &&& forall|j: int|
                        from <= j < self.cursor ==> #[trigger] src[j] != '\n' && !closes_comment(
                            src,
                            j,
                        )
                    &&& comment@ == src.subrange(from, self.cursor as int)
                },
                closed ==> {
                    let n = comment_len(src, from);
                    &&& closes_comment(src, from + n)
                    &&& self.cursor == from + n + 2
                    &&& comment@ == src.subrange(from, from + n)
                },
            decreases src.len() - self.cursor, if closed { 0int } else { 1int },
        {
            let ghost at = self.cursor as int;
            if self.source[self.cursor] == '*' && self.source.len() - self.cursor > 1
                && self.source[self.cursor + 1] == '#' {
                proof {
                    lemma_comment_is(src, from, at);
                }
                self.bump();
                self.bump();
                closed = true;
            } else {
                let c = self.bump();
                comment.push(c);
            }
        }
        proof {
            if !closed {
                lemma_comment_is(src, from, self.cursor as int);
            }
        }
        comment
    }

    /// Records `errors` among the diagnostics of the tokenizer.
    fn handle_error(&mut self, errors: Vec<RoughError>)
        ensures
            final(self).source == old(self).source,
            final(self).cursor == old(self).cursor,
            final(self).offset == old(self).offset,
            final(self).size == old(self).size,
            diagnostics(final(self).errors@) == diagnostics(old(self).errors@) + diagnostics(
                errors@,
            ),
    {
        let mut pending = errors;
        self.errors.append(&mut pending);
    }

    /// The next token, if the source holds another one. What cannot be made
    /// into a token on the way is passed over and recorded as a diagnostic.
    pub fn next(&mut self) -> (r: Option<Token>)
        requires
            old(self).wf(),
        ensures
            final(self).wf(),
            final(self).source() == old(self).source(),
            ({
                let step = next_token(old(self).source(), old(self).position());
                &&& final(self).position() == step.end
                &&& final(self).reported() == old(self).reported() + step.diagnostics
                &&& match r {
                    Some(token) => step.token == Some(token@),
                    None => step.token is None,
                }
            }),
    {
        let ghost src = self.source@;
        let ghost first = self.cursor as int;
        let ghost before = diagnostics(self.errors@);
        let ghost mut skipped: Seq<Diagnostic> = Seq::empty();
        while self.cursor < self.source.len()
            invariant
                self.wf(),
                self.source@ == src,
                src == old(self).source(),
                first == old(self).position(),
                before == old(self).reported(),
                0 <= first <= self.cursor <= src.len(),
                diagnostics(self.errors@) == before + skipped,
                next_token(src, first).token == next_token(src, self.cursor as int).token,
                next_token(src, first).end == next_token(src, self.cursor as int).end,
                next_token(src, first).diagnostics == skipped + next_token(
                    src,
                    self.cursor as int,
                ).diagnostics,
            decreases src.len() - self.cursor,
        {
            let ghost at = self.cursor as int;
            let start = self.offset;
            proof {
                lemma_scan_bounds(src, at);
            }
            let cur_char = self.bump();
            let found: Option<TokenType> = match cur_char {
                '(' => Some(TokenType::LParen),
                ')' => Some(TokenType::RParen),
                '[' => Some(TokenType::LBracket),
                ',' => Some(TokenType::Comma),
                ']' => Some(TokenType::RBracket),
                '|' => Some(TokenType::Pipe),
                '#' => Some(TokenType::Comment(self.read_comment())),
                '\n' => {
                    if self.at_char('\r') {
                        self.bump();
                    }
                    Some(TokenType::Newline)
                },
                '\r' => {
                    if self.at_char('\n') {
                        self.bump();
                    }
                    Some(TokenType::Newline)
                },
                ':' => {
                    if self.at_char('=') {
                        self.bump();
                        Some(TokenType::Assign)
                    } else {
                        Some(TokenType::Colon)
                    }
                },
                '\t' => Some(TokenType::Tab),
                ' ' => {
                    if self.source.len() - self.cursor >= 3 && self.source[self.cursor] == ' '
                        && self.source[self.cursor + 1] == ' ' && self.source[self.cursor + 2]
                        == ' ' {
                        self.bump();
                        self.bump();
                        self.bump();
                        Some(TokenType::Tab)
                    } else {
                        Some(TokenType::Space)
                    }
                },
                '"' => match self.read_string() {
                    Ok(string) => Some(TokenType::Str(string)),
                    Err(errors) => {
                        self.handle_error(errors);
                        None
                    },
                },
                other => {
                    if is_op_char(other) {
                        let op = self.read_operator(other);
                        assert(op@ =~= src.subrange(at, self.cursor as int));
                        Some(TokenType::Operator(op))
                    } else if is_digit(other) {
                        let number = self.read_number(other);
                        assert(number@ =~= src.subrange(at, self.cursor as int));
                        Some(TokenType::Number(number))
                    } else if is_letter(other) {
                        let word = self.read_identifier(other);
                        assert(word@ =~= src.subrange(at, self.cursor as int));
                        Some(lookup_ident(word))
                    } else {
                        let mut message = "unrecognized character `".to_owned();
                        message.push(other);
                        message.append("` at offset ");
                        push_decimal(&mut message, start);
                        let mut errors: Vec<RoughError> = Vec::new();
                        errors.push(RoughError::at(message, start));
                        self.handle_error(errors);
                        None
                    }
                },
            };
            match found {
                Some(token_type) => {
                    return Some(Token::new(token_type, start));
                },
                None => {
                    proof {
                        skipped = skipped.push(scan(src, at).found->Err_0);
                    }
                },
            }
        }
        None
    }

    /// All the tokens still to come, in order. Their diagnostics are added
    /// to those recorded.
    pub fn collect(&mut self) -> (tokens: Vec<Token>)
        requires
            old(self).wf(),
        ensures
            final(self).wf(),
            final(self).source() == old(self).source(),
            final(self).position() == old(self).source().len(),
            token_views(tokens@) == old(self).remaining_tokens(),
            final(self).reported() == old(self).reported() + old(self).remaining_diagnostics(),
    {
        let ghost src = self.source@;
        let ghost first = self.cursor as int;
        let ghost before = diagnostics(self.errors@);
        let mut tokens: Vec<Token> = Vec::new();
        let mut done = false;
        while !done
            invariant
                self.wf(),
                self.source@ == src,
                0 <= first <= self.cursor <= src.len(),
                tokens_from(src, first) == token_views(tokens@) + tokens_from(
                    src,
                    self.cursor as int,
                ),
                before + diagnostics_from(src, first) == diagnostics(self.errors@)
                    + diagnostics_from(src, self.cursor as int),
                done ==> self.cursor == src.len(),
            decreases src.len() - self.cursor, if done { 0int } else { 1int },
        {
            proof {
                lemma_next_token_bounds(src, self.cursor as int);
                lemma_tokens_unfold(src, self.cursor as int);
            }
            match self.next() {
                Some(token) => {
                    tokens.push(token);
                },
                None => {
                    done = true;
                },
            }
        }
        tokens
    }
}

/// The number of bytes that encode `c` in UTF-8.
pub fn len_utf8(c: char) -> (n: usize)
    ensures
        n == width(c),
        1 <= n <= 4,
{
    proof {
        char_is_scalar(c);
    }
    let code: u32 = c as u32;
    if code < 0x80 {
        1
    } else if code < 0x800 {
        2
    } else if code < 0x10000 {
        3
    } else {
        4
    }
}

/// The keyword that `word` spells, if it spells one.
fn check_keyword(word: &str) -> (r: Option<TokenType>)
    ensures
        match r {
            Some(keyword) => keyword@ == word_kind(word@) && !(word_kind(word@) is Ident),
            None => word_kind(word@) is Ident,
        },
{
    proof {
        reveal_strlit("if");
        reveal_strlit("else");
        reveal_strlit("in");
    }
    let n = word.unicode_len();
    if n == 2 && word.get_char(0) == 'i' && word.get_char(1) == 'f' {
        assert(word@ =~= "if"@);
        Some(TokenType::If)
    } else if n == 4 && word.get_char(0) == 'e' && word.get_char(1) == 'l' && word.get_char(2)
        == 's' && word.get_char(3) == 'e' {
        assert(word@ =~= "else"@);
        Some(TokenType::Else)
    } else if n == 2 && word.get_char(0) == 'i' && word.get_char(1) == 'n' {
        assert(word@ =~= "in"@);
        Some(TokenType::In)
    } else {
        None
    }
}

/// The token that the word `ident` is: a keyword, or else an identifier.
fn lookup_ident(ident: String) -> (r: TokenType)
    ensures
        r@ == word_kind(ident@),
{
    match check_keyword(ident.as_str()) {
        Some(token) => token,
        None => TokenType::Ident(ident),
    }
}

/// Whether `ch` can stand in an identifier.
pub fn is_letter(ch: char) -> (r: bool)
    ensures
        r == letter(ch),
{
    ('a' <= ch && ch <= 'z') || ('A' <= ch && ch <= 'Z') || ch == '_'
}

/// Whether `ch` is a decimal digit.
pub fn is_digit(ch: char) -> (r: bool)
    ensures
        r == digit(ch),
{
    '0' <= ch && ch <= '9'
}

/// Whether `ch` belongs to the operator alphabet.
pub fn is_op_char(ch: char) -> (r: bool)
    ensures
        r == op_char(ch),
{
    match ch {
        '!' | '$' | '%' | '&' | '*' | '+' | '.' | '/' | '<' | '=' | '>' | '?' | '@' | '\\' | '^'
        | '-' | '~' | '{' | '}' => true,
        _ => false,
    }
}

/// Whether `c` belongs to `class`.
fn belongs(class: CharClass, c: char) -> (r: bool)
    ensures
        r == in_class(class, c),
{
    match class {
        CharClass::Letter => is_letter(c),
        CharClass::Digit => is_digit(c),
        CharClass::Symbol => is_op_char(c),
        CharClass::Quoted => c != '"',
    }
}

} // verus!
