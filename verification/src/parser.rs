//! The parser: reads the tokens of a source text, without its comments and
//! white space, and builds the expression they stand for by precedence
//! climbing, going by the operators that the caller declared.

use vstd::prelude::*;
use vstd::string::StringExecFns;
use crate::ast::{lemma_trees_empty, lemma_trees_push, texts, tree, trees, Expression, Tree};
use crate::error::{clone_errors, diagnostics, Diagnostic, RoughError, RoughResult};
use crate::lexer::model::{diagnostics_from, tokens_from};
use crate::lexer::Lexer;
use crate::operator::{
    reserved_precedences, OperatorDefinition, OperatorTable, OperatorType, OperatorView, Precedence,
};
use crate::parser::grammar::{
    after, arguments, best_effort, call_expression, can_start, can_start_argument, complaints, done,
    elements, expected, expected_literal, expected_parameter, failed, function_literal,
    function_parameters, grouped_expression, identifier, if_expression, ignored_kind,
    index_map_literal, infix_expression, infix_parse, kind_at, left_in, no_expression, number,
    operator_for, parameter_names, postfix_expression, prefix_expression, prefix_parse,
    premature_end, significant, string_literal, token_at, undefined_operator, InfixParseFn, Items,
    Names, Outcome, Parse, PrefixParseFn,
};
use crate::parser::laws::lemma_parse_expression_settled;
use crate::token::{token_views, Token, TokenKind, TokenType, TokenView};

pub mod grammar;
pub mod laws;

verus! {

/// How tightly a call binds: tighter than an operator of any level.
pub const CALL_LEVEL: u8 = 10;

/// Why there is no whole expression: the diagnostics, and what had been
/// read of the expression, if anything.
#[derive(Debug)]
pub struct Rejection {
    pub partial: Option<Expression>,
    pub diagnostics: Vec<RoughError>,
}

/// What a source that did not parse cleanly leaves: every diagnostic of
/// the tokenizer and the parser, in order, and the best expression that
/// could be made of the source, which may be only part of it or nothing.
#[derive(Debug)]
pub struct ParseFailure {
    pub partial: Option<Expression>,
    pub diagnostics: Vec<RoughError>,
}

/// The tree of an expression that may be missing.
pub open spec fn option_tree(expression: Option<Expression>) -> Option<Tree> {
    match expression {
        Some(e) => Some(e@),
        None => None,
    }
}

/// How a parse that returned `result` ended.
pub open spec fn outcome_of(result: Result<Expression, Rejection>) -> Outcome {
    match result {
        Ok(expression) => Outcome::Done(expression@),
        Err(rejection) => Outcome::Failed(
            option_tree(rejection.partial),
            diagnostics(rejection.diagnostics@),
        ),
    }
}

/// A parser over the tokens of one source text.
pub struct Parser {
    /// The tokens that count, in order.
    tokens: Vec<Token>,
    operators: OperatorTable,
    errors: Vec<RoughError>,
    /// Index into `tokens` of the current token, or their number once the
    /// parser has gone past the last.
    cursor: usize,
}

/// The parser `now` is what `before` becomes by a parse that went as
/// `parse` says and returned `result`: the cursor has moved, and nothing
/// else has changed.
pub open spec fn lands(
    before: Parser,
    now: Parser,
    result: Result<Expression, Rejection>,
    parse: Parse,
) -> bool {
    &&& now.wf()
    &&& now.tokens() == before.tokens()
    &&& now.operators() == before.operators()
    &&& now.reported() == before.reported()
    &&& now.cursor() == before.cursor() + parse.advance
    &&& outcome_of(result) == parse.outcome
}

impl Parser {
    /// The tokens that the parser reads: those of the source without
    /// comments and white space.
    pub closed spec fn tokens(&self) -> Seq<TokenView> {
        token_views(self.tokens@)
    }

    /// The operator definitions that the parser goes by.
    pub closed spec fn operators(&self) -> Seq<OperatorView> {
        self.operators@
    }

    /// The index of the current token.
    pub closed spec fn cursor(&self) -> nat {
        self.cursor as nat
    }

    /// The diagnostics recorded so far, the tokenizer's first.
    pub closed spec fn reported(&self) -> Seq<Diagnostic> {
        diagnostics(self.errors@)
    }

    /// The cursor stands on a token or just behind the last.
    pub closed spec fn wf(&self) -> bool {
        self.cursor <= self.tokens.len()
    }

    /// A parser at the first of the tokens that `lex` has still to give,
    /// with the diagnostics of the tokenizer.
    pub fn new(lex: Lexer, operators: OperatorTable) -> (r: Parser)
        requires
            lex.wf(),
        ensures
            r.wf(),
            r.tokens() == significant(lex.remaining_tokens()),
            r.operators() == operators@,
            r.cursor() == 0,
            r.reported() == lex.reported() + lex.remaining_diagnostics(),
    {
        let mut lex = lex;
        let all = lex.collect();
        let errors = lex.into_errors();
        let mut tokens: Vec<Token> = Vec::new();
        let mut at: usize = 0;
        proof {
            reveal(Seq::filter);
        }
        while at < all.len()
            invariant
                at <= all.len(),
                token_views(tokens@) == significant(token_views(all@).take(at as int)),
            decreases all.len() - at,
        {
            let ghost kept = token_views(tokens@);
            let ghost seen = token_views(all@).take(at as int);
            proof {
                reveal(Seq::filter);
                assert(token_views(all@).take(at + 1).drop_last() =~= seen);
            }
            if !ignored(&all[at]) {
                tokens.push(all[at].clone());
                assert(token_views(tokens@) =~= kept.push(all@[at as int]@));
            }
            at += 1;
        }
        assert(token_views(all@).take(all.len() as int) =~= token_views(all@));
        Parser { tokens, operators, errors, cursor: 0 }
    }

    /// The current token, or the diagnostic that the source has ended.
    pub fn current_result(&self) -> (r: RoughResult<Token>)
        requires
            self.wf(),
        ensures
            match r {
                Ok(token) => token_at(self.tokens(), self.cursor()) == Some(token@),
                Err(errors) => {
                    &&& token_at(self.tokens(), self.cursor()) is None
                    &&& diagnostics(errors@) == seq![premature_end()]
                },
            },
    {
        if self.cursor < self.tokens.len() {
            Ok(self.tokens[self.cursor].clone())
        } else {
            Err(premature_end_errors())
        }
    }

    /// Moves to the next token. Behind the last token there is no current
    /// token, and the parser stays there.
    pub fn next(&mut self)
        requires
            old(self).wf(),
        ensures
            final(self).wf(),
            final(self).tokens() == old(self).tokens(),
            final(self).operators() == old(self).operators(),
            final(self).reported() == old(self).reported(),
            final(self).cursor() == if old(self).cursor() < old(self).tokens().len() {
                old(self).cursor() + 1
            } else {
                old(self).cursor()
            },
    {
        if self.cursor < self.tokens.len() {
            self.cursor = self.cursor + 1;
        }
    }

    /// The token behind the current one, if there is one.
    fn peek(&self) -> (r: Option<&Token>)
        requires
            self.wf(),
        ensures
            match r {
                Some(token) => token_at(self.tokens(), self.cursor() + 1) == Some(token@),
                None => token_at(self.tokens(), self.cursor() + 1) is None,
            },
    {
        if self.cursor < self.tokens.len() && self.tokens.len() - self.cursor > 1 {
            Some(&self.tokens[self.cursor + 1])
        } else {
            None
        }
    }

    /// Moves to the next token if it is of the kind `expected`, and says
    /// whether it was.
    fn next_if_equals(&mut self, expected: &TokenType) -> (r: bool)
        requires
            old(self).wf(),
        ensures
            final(self).wf(),
            final(self).tokens() == old(self).tokens(),
            final(self).operators() == old(self).operators(),
            final(self).reported() == old(self).reported(),
            r == kind_at(old(self).tokens(), old(self).cursor() + 1, expected@),
            final(self).cursor() == if r {
                old(self).cursor() + 1
            } else {
                old(self).cursor()
            },
    {
        let equals = match self.peek() {
            Some(token) => *token.token_type() == *expected,
            None => false,
        };
        if equals {
            self.next();
            true
        } else {
            false
        }
    }

    /// Moves to the next token if it is of the kind `wanted`. If it is not,
    /// the parser stays and the result is the diagnostic.
    fn next_if_equals_result(&mut self, wanted: &TokenType) -> (r: RoughResult<()>)
        requires
            old(self).wf(),
        ensures
            final(self).wf(),
            final(self).tokens() == old(self).tokens(),
            final(self).operators() == old(self).operators(),
            final(self).reported() == old(self).reported(),
            match r {
                Ok(_) => {
                    &&& kind_at(old(self).tokens(), old(self).cursor() + 1, wanted@)
                    &&& final(self).cursor() == old(self).cursor() + 1
                },
                Err(errors) => {
                    &&& !kind_at(old(self).tokens(), old(self).cursor() + 1, wanted@)
                    &&& final(self).cursor() == old(self).cursor()
                    &&& diagnostics(errors@) == seq![
                        expected(wanted@, token_at(old(self).tokens(), old(self).cursor() + 1)),
                    ]
                },
            },
    {
        if !self.next_if_equals(wanted) {
            Err(one_error(expected_error(wanted, self.peek())))
        } else {
            Ok(())
        }
    }

    /// A copy of the diagnostics recorded so far.
    pub fn get_errors(&self) -> (r: Vec<RoughError>)
        ensures
            diagnostics(r@) == self.reported(),
    {
        clone_errors(&self.errors)
    }

    /// Parses one expression from the current token on. What the parser
    /// finds wrong is added to the diagnostics: one diagnostic, for the
    /// first thing that is wrong. The result is the expression only where
    /// there is no diagnostic at all, the tokenizer's included; else it is
    /// all the diagnostics, with the best expression that could be made.
    /// Tokens behind the expression are left unread.
    pub fn parse_program(&mut self) -> (r: Result<Expression, ParseFailure>)
        requires
            old(self).wf(),
        ensures
            final(self).wf(),
            final(self).tokens() == old(self).tokens(),
            final(self).operators() == old(self).operators(),
            ({
                let parse = grammar::parse_expression(
                    old(self).tokens(),
                    old(self).operators(),
                    old(self).cursor(),
                    0,
                );
                &&& final(self).cursor() == old(self).cursor() + parse.advance
                &&& final(self).reported() == old(self).reported() + complaints(parse.outcome)
                &&& complaints(parse.outcome).len() <= 1
                &&& match r {
                    Ok(expression) => {
                        &&& final(self).reported().len() == 0
                        &&& parse.outcome == Outcome::Done(expression@)
                    },
                    Err(failure) => {
                        &&& final(self).reported().len() > 0
                        &&& diagnostics(failure.diagnostics@) == final(self).reported()
                        &&& option_tree(failure.partial) == best_effort(parse.outcome)
                    },
                }
            }),
    {
        proof {
            lemma_parse_expression_settled(self.tokens(), self.operators(), self.cursor(), 0);
        }
        let best = match self.parse_expression(0) {
            Ok(expression) => {
                if self.errors.len() == 0 {
                    return Ok(expression);
                }
                Some(expression)
            },
            Err(rejection) => {
                let mut found = rejection.diagnostics;
                self.errors.append(&mut found);
                rejection.partial
            },
        };
        Err(ParseFailure { partial: best, diagnostics: clone_errors(&self.errors) })
    }

    /// Parses the expression that begins at the current token and takes in
    /// no operator that binds as loosely as `floor` or more loosely. Levels
    /// are counted as [`Precedence::level`] does; a call binds at
    /// [`CALL_LEVEL`].
    fn parse_expression(&mut self, floor: u8) -> (r: Result<Expression, Rejection>)
        requires
            old(self).wf(),
        ensures
            lands(
                *old(self),
                *final(self),
                r,
                grammar::parse_expression(
                    old(self).tokens(),
                    old(self).operators(),
                    old(self).cursor(),
                    floor as nat,
                ),
            ),
        decreases left_in(old(self).tokens(), old(self).cursor()), 3nat,
    {
        let ghost toks = self.tokens();
        let ghost ops = self.operators();
        let ghost start = self.cursor();
        let ghost goal = grammar::parse_expression(toks, ops, start, floor as nat);
        let token = match self.current_result() {
            Ok(token) => token,
            Err(errors) => {
                return Err(Rejection { partial: None, diagnostics: errors });
            },
        };
        let prefix_parser = match prefix_parse_lookup(&token, &self.operators) {
            Ok(how) => how,
            Err(errors) => {
                return Err(Rejection { partial: None, diagnostics: errors });
            },
        };
        let head = match prefix_parser {
            PrefixParseFn::Number => parse_number(self),
            PrefixParseFn::StringLiteral => parse_string_literal(self),
            PrefixParseFn::FunctionLiteral => parse_function_literal(self),
            PrefixParseFn::Identifier => parse_identifier(self),
            PrefixParseFn::PrefixExpression => parse_prefix_expression(self),
            PrefixParseFn::IfExpression => parse_if_expression(self),
            PrefixParseFn::GroupedExpression => parse_grouped_expression(self),
            PrefixParseFn::IndexMapLiteral => parse_index_map_literal(self),
        };
        let mut exp = match head {
            Ok(expression) => expression,
            Err(rejection) => {
                return Err(rejection);
            },
        };
        let mut callable = match prefix_parser {
            PrefixParseFn::Identifier => true,
            _ => false,
        };
        loop
            invariant
                self.wf(),
                self.tokens() == toks,
                self.operators() == ops,
                self.reported() == old(self).reported(),
                toks == old(self).tokens(),
                ops == old(self).operators(),
                start == old(self).cursor(),
                start <= self.cursor(),
                goal == grammar::parse_expression(toks, ops, start, floor as nat),
                goal == after(
                    (self.cursor() - start) as nat,
                    grammar::parse_tail(toks, ops, self.cursor(), floor as nat, exp@, callable),
                ),
            decreases left_in(toks, self.cursor()),
        {
            let how = match self.peek() {
                Some(next) => match infix_parse_lookup(next, &self.operators, callable) {
                    Some(how) => {
                        let level = match how {
                            InfixParseFn::Call => CALL_LEVEL,
                            _ => self.token_precedence(next).level(),
                        };
                        if floor < level {
                            how
                        } else {
                            return Ok(exp);
                        }
                    },
                    None => {
                        return Ok(exp);
                    },
                },
                None => {
                    return Ok(exp);
                },
            };
            self.next();
            let step = match how {
                InfixParseFn::InfixExpression => parse_infix_expression(self, exp),
                InfixParseFn::PostfixExpression => parse_postfix_expression(self, exp),
                InfixParseFn::Call => parse_call_expression(self, exp),
            };
            match step {
                Ok(longer) => {
                    exp = longer;
                    callable = false;
                },
                Err(rejection) => {
                    return Err(rejection);
                },
            }
        }
    }

    /// The precedence of `token` where it follows an expression.
    fn token_precedence(&self, token: &Token) -> (r: Precedence)
        ensures
            r == grammar::token_precedence(self.operators(), token@.kind),
    {
        if let Some(precedence) = reserved_precedences(token.token_type()) {
            return precedence;
        }
        if let Some(op) = operator_of(&self.operators, token, OperatorType::Infix) {
            return op.precedence;
        }
        if let Some(op) = operator_of(&self.operators, token, OperatorType::Postfix) {
            return op.precedence;
        }
        Precedence::First
    }
}

/// Parses the one expression that `source` is, going by `operators`: the
/// source is cut into tokens, comments and white space are dropped, and
/// one expression is read from the first token on. The result is the
/// expression only where neither the tokenizer nor the parser found
/// anything wrong; else it is the diagnostics of both, the tokenizer's
/// first, with the best expression that could be made.
pub fn parse(source: &str, operators: OperatorTable) -> (r: Result<Expression, ParseFailure>)
    ensures
        ({
            let tokens = significant(tokens_from(source@, 0));
            let parse = grammar::parse_expression(tokens, operators@, 0, 0);
            let found = diagnostics_from(source@, 0) + complaints(parse.outcome);
            match r {
                Ok(expression) => {
                    &&& found.len() == 0
                    &&& parse.outcome == Outcome::Done(expression@)
                },
                Err(failure) => {
                    &&& found.len() > 0
                    &&& diagnostics(failure.diagnostics@) == found
                    &&& option_tree(failure.partial) == best_effort(parse.outcome)
                },
            }
        }),
{
    let lexer = Lexer::new(source);
    let mut parser = Parser::new(lexer, operators);
    parser.parse_program()
}

/// A list of the one error `error`.
fn one_error(error: RoughError) -> (r: Vec<RoughError>)
    ensures
        diagnostics(r@) == seq![error@],
{
    let mut errors: Vec<RoughError> = Vec::new();
    errors.push(error);
    errors
}

/// The error for a source that ends where an expression is due.
fn premature_end_errors() -> (r: Vec<RoughError>)
    ensures
        diagnostics(r@) == seq![premature_end()],
{
    one_error(RoughError::new("premature end of input".to_owned()))
}

/// The definition that makes `token` an operator of type `op_type`, if the
/// table has one.
fn operator_of<'a>(operators: &'a OperatorTable, token: &Token, op_type: OperatorType) -> (r:
    Option<&'a OperatorDefinition>)
    ensures
        match r {
            Some(definition) => operator_for(operators@, token@.kind, op_type) == Some(
                definition@,
            ),
            None => operator_for(operators@, token@.kind, op_type) is None,
        },
{
    match token.token_type() {
        TokenType::Ident(name) => operators.lookup(name.as_str(), op_type),
        TokenType::Operator(name) => operators.lookup(name.as_str(), op_type),
        _ => None,
    }
}

/// The error for a token that begins no expression.
fn no_expression_error(token: &Token) -> (r: RoughError)
    ensures
        r@ == no_expression(token@),
{
    let mut message = "no expression can start with token `".to_owned();
    message.append(token.token_type().to_text().as_str());
    message.append("`");
    RoughError::at(message, token.position())
}

/// The error for a token that is not declared as an operator of the type
/// that is due.
fn undefined_operator_error(token: &Token, op_type: OperatorType) -> (r: RoughError)
    ensures
        r@ == undefined_operator(token@, op_type),
{
    let mut message = "`".to_owned();
    message.append(token.token_type().to_text().as_str());
    message.append("` is not defined as ");
    match op_type {
        OperatorType::Prefix => message.append("a prefix operator"),
        OperatorType::Infix => message.append("an infix operator"),
        OperatorType::Postfix => message.append("a postfix operator"),
    }
    RoughError::at(message, token.position())
}

/// The error for a token of kind `wanted` that is due and not there.
fn expected_error(wanted: &TokenType, found: Option<&Token>) -> (r: RoughError)
    ensures
        r@ == expected(
            wanted@,
            match found {
                Some(token) => Some(token@),
                None => None,
            },
        ),
{
    let mut message = "expected `".to_owned();
    message.append(wanted.to_text().as_str());
    match found {
        Some(token) => {
            message.append("` but found `");
            message.append(token.token_type().to_text().as_str());
            message.append("`");
            RoughError::at(message, token.position())
        },
        None => {
            message.append("` but the input ended");
            RoughError::new(message)
        },
    }
}

/// The error for a token that stands where the name of a parameter is due.
fn expected_parameter_error(found: &Token) -> (r: RoughError)
    ensures
        r@ == expected_parameter(found@),
{
    let mut message = "expected a parameter name but found `".to_owned();
    message.append(found.token_type().to_text().as_str());
    message.append("`");
    RoughError::at(message, found.position())
}

/// The error for a token that stands where a literal is due.
fn expected_literal_error(found: &Token) -> (r: RoughError)
    ensures
        r@ == expected_literal(found@),
{
    let mut message = "expected a literal but found `".to_owned();
    message.append(found.token_type().to_text().as_str());
    message.append("`");
    RoughError::at(message, found.position())
}

/// Parses the number literal that the current token is.
fn parse_number(parser: &mut Parser) -> (r: Result<Expression, Rejection>)
    requires
        old(parser).wf(),
    ensures
        lands(
            *old(parser),
            *final(parser),
            r,
            number(old(parser).tokens(), old(parser).cursor()),
        ),
{
    let token = match parser.current_result() {
        Ok(token) => token,
        Err(errors) => {
            return Err(Rejection { partial: None, diagnostics: errors });
        },
    };
    match token.token_type() {
        TokenType::Number(digits) => Ok(Expression::Number(digits.clone())),
        _ => Err(
            Rejection { partial: None, diagnostics: one_error(expected_literal_error(&token)) },
        ),
    }
}

/// Parses the string literal that the current token is.
fn parse_string_literal(parser: &mut Parser) -> (r: Result<Expression, Rejection>)
    requires
        old(parser).wf(),
    ensures
        lands(
            *old(parser),
            *final(parser),
            r,
            string_literal(old(parser).tokens(), old(parser).cursor()),
        ),
{
    let token = match parser.current_result() {
        Ok(token) => token,
        Err(errors) => {
            return Err(Rejection { partial: None, diagnostics: errors });
        },
    };
    match token.token_type() {
        TokenType::Str(string) => Ok(Expression::Str(string.clone())),
        _ => Err(
            Rejection { partial: None, diagnostics: one_error(expected_literal_error(&token)) },
        ),
    }
}

/// Parses the name that the current token is.
fn parse_identifier(parser: &mut Parser) -> (r: Result<Expression, Rejection>)
    requires
        old(parser).wf(),
    ensures
        lands(
            *old(parser),
            *final(parser),
            r,
            identifier(old(parser).tokens(), old(parser).cursor()),
        ),
{
    let token = match parser.current_result() {
        Ok(token) => token,
        Err(errors) => {
            return Err(Rejection { partial: None, diagnostics: errors });
        },
    };
    match token.token_type() {
        TokenType::Ident(name) => Ok(Expression::Ident(name.clone())),
        _ => Err(
            Rejection { partial: None, diagnostics: one_error(no_expression_error(&token)) },
        ),
    }
}

/// Parses the parameters of a function literal, from its opening `|`, on
/// which the parser stands, to its closing `|`.
fn parse_function_parameters(parser: &mut Parser) -> (r: RoughResult<Vec<String>>)
    requires
        old(parser).wf(),
        old(parser).cursor() < old(parser).tokens().len(),
    ensures
        final(parser).wf(),
        final(parser).tokens() == old(parser).tokens(),
        final(parser).operators() == old(parser).operators(),
        final(parser).reported() == old(parser).reported(),
        ({
            let list = function_parameters(old(parser).tokens(), old(parser).cursor());
            &&& final(parser).cursor() == old(parser).cursor() + list.advance
            &&& match r {
                Ok(names) => list.names == Ok::<Seq<Seq<char>>, Seq<Diagnostic>>(texts(names@)),
                Err(errors) => list.names == Err::<Seq<Seq<char>>, Seq<Diagnostic>>(
                    diagnostics(errors@),
                ),
            }
        }),
{
    let ghost toks = parser.tokens();
    let ghost start = parser.cursor();
    let mut params: Vec<String> = Vec::new();
    parser.next();
    assert(texts(params@) =~= Seq::<Seq<char>>::empty());
    loop
        invariant_except_break
            ({
                let whole = parameter_names(toks, start + 1, Seq::empty());
                let rest = parameter_names(toks, parser.cursor(), texts(params@));
                &&& whole.names == rest.names
                &&& start + 1 + whole.advance == parser.cursor() + rest.advance
            }),
        invariant
            parser.wf(),
            parser.tokens() == toks,
            toks == old(parser).tokens(),
            start == old(parser).cursor(),
            parser.operators() == old(parser).operators(),
            parser.reported() == old(parser).reported(),
            parser.cursor() > start,
        ensures
            parameter_names(toks, start + 1, Seq::empty()) == (Names {
                advance: (parser.cursor() - start - 1) as nat,
                names: Ok(texts(params@)),
            }),
        decreases left_in(toks, parser.cursor()),
    {
        let current = match parser.current_result() {
            Ok(token) => token,
            Err(errors) => {
                return Err(errors);
            },
        };
        match current.token_type() {
            TokenType::Ident(name) => {
                let ghost read = texts(params@);
                params.push(name.clone());
                assert(texts(params@) =~= read.push(name@));
            },
            _ => {
                return Err(one_error(expected_parameter_error(&current)));
            },
        }
        if parser.next_if_equals(&TokenType::Comma) {
            parser.next();
        } else {
            break;
        }
    }
    match parser.next_if_equals_result(&TokenType::Pipe) {
        Ok(_) => Ok(params),
        Err(errors) => Err(errors),
    }
}

/// Parses a function literal, on whose opening `|` the parser stands.
fn parse_function_literal(parser: &mut Parser) -> (r: Result<Expression, Rejection>)
    requires
        old(parser).wf(),
    ensures
        lands(
            *old(parser),
            *final(parser),
            r,
            function_literal(old(parser).tokens(), old(parser).operators(), old(parser).cursor()),
        ),
    decreases left_in(old(parser).tokens(), old(parser).cursor()), 1nat,
{
    if parser.cursor >= parser.tokens.len() {
        return Err(Rejection { partial: None, diagnostics: premature_end_errors() });
    }
    let params = match parse_function_parameters(parser) {
        Ok(params) => params,
        Err(errors) => {
            return Err(Rejection { partial: None, diagnostics: errors });
        },
    };
    parser.next();
    match parser.parse_expression(0) {
        Ok(body) => Ok(Expression::Function(params, Box::new(body))),
        Err(rejection) => Err(rejection),
    }
}

/// Parses a conditional, on whose `if` the parser stands.
fn parse_if_expression(parser: &mut Parser) -> (r: Result<Expression, Rejection>)
    requires
        old(parser).wf(),
    ensures
        lands(
            *old(parser),
            *final(parser),
            r,
            if_expression(old(parser).tokens(), old(parser).operators(), old(parser).cursor()),
        ),
    decreases left_in(old(parser).tokens(), old(parser).cursor()), 1nat,
{
    if parser.cursor >= parser.tokens.len() {
        return Err(Rejection { partial: None, diagnostics: premature_end_errors() });
    }
    let ghost toks = parser.tokens();
    let ghost ops = parser.operators();
    let ghost start = parser.cursor();
    parser.next();
    let cond = match parser.parse_expression(0) {
        Ok(cond) => cond,
        Err(rejection) => {
            return Err(rejection);
        },
    };
    proof {
        // the condition ends on a token, so the consequent begins behind it
        lemma_parse_expression_settled(toks, ops, start + 1, 0);
    }
    parser.next();
    let cons = match parser.parse_expression(0) {
        Ok(cons) => cons,
        Err(rejection) => {
            return Err(rejection);
        },
    };
    if parser.next_if_equals(&TokenType::Else) {
        parser.next();
        match parser.parse_expression(0) {
            Ok(parsed_else) => Ok(
                Expression::If(Box::new(cond), Box::new(cons), Some(Box::new(parsed_else))),
            ),
            Err(rejection) => Err(
                Rejection {
                    partial: Some(Expression::If(Box::new(cond), Box::new(cons), None)),
                    diagnostics: rejection.diagnostics,
                },
            ),
        }
    } else {
        Ok(Expression::If(Box::new(cond), Box::new(cons), None))
    }
}

/// Parses a group, on whose `(` the parser stands.
fn parse_grouped_expression(parser: &mut Parser) -> (r: Result<Expression, Rejection>)
    requires
        old(parser).wf(),
    ensures
        lands(
            *old(parser),
            *final(parser),
            r,
            grouped_expression(
                old(parser).tokens(),
                old(parser).operators(),
                old(parser).cursor(),
            ),
        ),
    decreases left_in(old(parser).tokens(), old(parser).cursor()), 1nat,
{
    if parser.cursor >= parser.tokens.len() {
        return Err(Rejection { partial: None, diagnostics: premature_end_errors() });
    }
    parser.next();
    let exp = match parser.parse_expression(0) {
        Ok(exp) => exp,
        Err(rejection) => {
            return Err(rejection);
        },
    };
    match parser.next_if_equals_result(&TokenType::RParen) {
        Ok(_) => Ok(exp),
        Err(errors) => Err(Rejection { partial: Some(exp), diagnostics: errors }),
    }
}

/// Parses a list, on whose `[` the parser stands.
fn parse_index_map_literal(parser: &mut Parser) -> (r: Result<Expression, Rejection>)
    requires
        old(parser).wf(),
    ensures
        lands(
            *old(parser),
            *final(parser),
            r,
            index_map_literal(
                old(parser).tokens(),
                old(parser).operators(),
                old(parser).cursor(),
            ),
        ),
    decreases left_in(old(parser).tokens(), old(parser).cursor()), 1nat,
{
    let ghost toks = parser.tokens();
    let ghost ops = parser.operators();
    let ghost start = parser.cursor();
    if parser.cursor >= parser.tokens.len() {
        return Err(Rejection { partial: None, diagnostics: premature_end_errors() });
    }
    let mut elems: Vec<Expression> = Vec::new();
    proof {
        lemma_trees_empty();
    }
    if parser.next_if_equals(&TokenType::RBracket) {
        return Ok(Expression::IndexMap(elems));
    }
    parser.next();
    loop
        invariant_except_break
            index_map_literal(toks, ops, start) == after(
                (parser.cursor() - start) as nat,
                elements(toks, ops, parser.cursor(), trees(elems@)),
            ),
        invariant
            parser.wf(),
            parser.tokens() == toks,
            parser.operators() == ops,
            toks == old(parser).tokens(),
            ops == old(parser).operators(),
            start == old(parser).cursor(),
            parser.reported() == old(parser).reported(),
            parser.cursor() > start,
            start < toks.len(),
        ensures
            !kind_at(toks, parser.cursor() + 1, TokenKind::Comma),
            index_map_literal(toks, ops, start) == if kind_at(
                toks,
                parser.cursor() + 1,
                TokenKind::RBracket,
            ) {
                done((parser.cursor() + 1 - start) as nat, Tree::IndexMap(trees(elems@)))
            } else {
                failed(
                    (parser.cursor() - start) as nat,
                    Some(Tree::IndexMap(trees(elems@))),
                    expected(TokenKind::RBracket, token_at(toks, parser.cursor() + 1)),
                )
            },
        decreases left_in(toks, parser.cursor()),
    {
        let ghost read = elems@;
        match parser.parse_expression(0) {
            Ok(element) => {
                elems.push(element);
                proof {
                    lemma_trees_push(read, element);
                }
            },
            Err(rejection) => {
                return Err(
                    Rejection {
                        partial: Some(Expression::IndexMap(elems)),
                        diagnostics: rejection.diagnostics,
                    },
                );
            },
        }
        if parser.next_if_equals(&TokenType::Comma) {
            parser.next();
        } else {
            break;
        }
    }
    match parser.next_if_equals_result(&TokenType::RBracket) {
        Ok(_) => Ok(Expression::IndexMap(elems)),
        Err(errors) => Err(
            Rejection { partial: Some(Expression::IndexMap(elems)), diagnostics: errors },
        ),
    }
}

/// Parses a prefix operator, on which the parser stands, and its operand.
fn parse_prefix_expression(parser: &mut Parser) -> (r: Result<Expression, Rejection>)
    requires
        old(parser).wf(),
    ensures
        lands(
            *old(parser),
            *final(parser),
            r,
            prefix_expression(
                old(parser).tokens(),
                old(parser).operators(),
                old(parser).cursor(),
            ),
        ),
    decreases left_in(old(parser).tokens(), old(parser).cursor()), 1nat,
{
    let op_token = match parser.current_result() {
        Ok(token) => token,
        Err(errors) => {
            return Err(Rejection { partial: None, diagnostics: errors });
        },
    };
    let op_def = match operator_of(&parser.operators, &op_token, OperatorType::Prefix) {
        Some(definition) => definition.clone(),
        None => {
            return Err(
                Rejection {
                    partial: None,
                    diagnostics: one_error(
                        undefined_operator_error(&op_token, OperatorType::Prefix),
                    ),
                },
            );
        },
    };
    parser.next();
    match parser.parse_expression(op_def.precedence.level()) {
        Ok(right_exp) => Ok(Expression::Prefix(op_def, Box::new(right_exp))),
        Err(rejection) => Err(rejection),
    }
}

/// Parses an infix operator, on which the parser stands, and its right
/// operand. `left_exp` is its left operand.
fn parse_infix_expression(parser: &mut Parser, left_exp: Expression) -> (r: Result<
    Expression,
    Rejection,
>)
    requires
        old(parser).wf(),
    ensures
        lands(
            *old(parser),
            *final(parser),
            r,
            infix_expression(
                old(parser).tokens(),
                old(parser).operators(),
                old(parser).cursor(),
                left_exp@,
            ),
        ),
    decreases left_in(old(parser).tokens(), old(parser).cursor()), 1nat,
{
    let op_token = match parser.current_result() {
        Ok(token) => token,
        Err(errors) => {
            return Err(Rejection { partial: Some(left_exp), diagnostics: errors });
        },
    };
    let op_def = match operator_of(&parser.operators, &op_token, OperatorType::Infix) {
        Some(definition) => definition.clone(),
        None => {
            return Err(
                Rejection {
                    partial: Some(left_exp),
                    diagnostics: one_error(
                        undefined_operator_error(&op_token, OperatorType::Infix),
                    ),
                },
            );
        },
    };
    parser.next();
    match parser.parse_expression(op_def.precedence.level()) {
        Ok(right_exp) => Ok(Expression::Infix(Box::new(left_exp), op_def, Box::new(right_exp))),
        Err(rejection) => Err(
            Rejection { partial: Some(left_exp), diagnostics: rejection.diagnostics },
        ),
    }
}

/// Applies the postfix operator on which the parser stands to `operand`.
fn parse_postfix_expression(parser: &mut Parser, operand: Expression) -> (r: Result<
    Expression,
    Rejection,
>)
    requires
        old(parser).wf(),
    ensures
        lands(
            *old(parser),
            *final(parser),
            r,
            postfix_expression(
                old(parser).tokens(),
                old(parser).operators(),
                old(parser).cursor(),
                operand@,
            ),
        ),
{
    let op_token = match parser.current_result() {
        Ok(token) => token,
        Err(errors) => {
            return Err(Rejection { partial: Some(operand), diagnostics: errors });
        },
    };
    match operator_of(&parser.operators, &op_token, OperatorType::Postfix) {
        Some(definition) => Ok(Expression::Postfix(Box::new(operand), definition.clone())),
        None => Err(
            Rejection {
                partial: Some(operand),
                diagnostics: one_error(
                    undefined_operator_error(&op_token, OperatorType::Postfix),
                ),
            },
        ),
    }
}

/// Parses the arguments of a call, on the first of which the parser
/// stands. `callee` is what is called.
fn parse_call_expression(parser: &mut Parser, callee: Expression) -> (r: Result<
    Expression,
    Rejection,
>)
    requires
        old(parser).wf(),
    ensures
        lands(
            *old(parser),
            *final(parser),
            r,
            call_expression(
                old(parser).tokens(),
                old(parser).operators(),
                old(parser).cursor(),
                callee@,
            ),
        ),
    decreases left_in(old(parser).tokens(), old(parser).cursor()), 5nat,
{
    let ghost toks = parser.tokens();
    let ghost ops = parser.operators();
    let ghost start = parser.cursor();
    let mut args: Vec<Expression> = Vec::new();
    proof {
        lemma_trees_empty();
    }
    loop
        invariant_except_break
            ({
                let whole = arguments(toks, ops, start, Seq::empty());
                let rest = arguments(toks, ops, parser.cursor(), trees(args@));
                &&& whole.items == rest.items
                &&& start + whole.advance == parser.cursor() + rest.advance
            }),
        invariant
            parser.wf(),
            parser.tokens() == toks,
            parser.operators() == ops,
            toks == old(parser).tokens(),
            ops == old(parser).operators(),
            start == old(parser).cursor(),
            parser.reported() == old(parser).reported(),
            parser.cursor() >= start,
        ensures
            arguments(toks, ops, start, Seq::empty()) == (Items {
                advance: (parser.cursor() - start) as nat,
                items: Ok(trees(args@)),
            }),
        decreases left_in(toks, parser.cursor()),
    {
        let ghost read = args@;
        match parser.parse_expression(CALL_LEVEL) {
            Ok(argument) => {
                args.push(argument);
                proof {
                    lemma_trees_push(read, argument);
                }
            },
            Err(rejection) => {
                return Err(
                    Rejection { partial: Some(callee), diagnostics: rejection.diagnostics },
                );
            },
        }
        let more = match parser.peek() {
            Some(next) => starts_argument(next, &parser.operators),
            None => false,
        };
        if more {
            parser.next();
        } else {
            break;
        }
    }
    Ok(Expression::Call(Box::new(callee), args))
}

/// The way an expression begins that begins with `token`.
fn prefix_parse_lookup(token: &Token, operators: &OperatorTable) -> (r: RoughResult<PrefixParseFn>)
    ensures
        match r {
            Ok(how) => prefix_parse(operators@, token@) == Ok::<PrefixParseFn, Diagnostic>(how),
            Err(errors) => {
                &&& prefix_parse(operators@, token@) is Err
                &&& diagnostics(errors@) == seq![prefix_parse(operators@, token@)->Err_0]
            },
        },
{
    let func = match token.token_type() {
        TokenType::Number(_) => PrefixParseFn::Number,
        TokenType::Str(_) => PrefixParseFn::StringLiteral,
        TokenType::Pipe => PrefixParseFn::FunctionLiteral,
        TokenType::Ident(name) => {
            if operators.lookup(name.as_str(), OperatorType::Prefix).is_some() {
                PrefixParseFn::PrefixExpression
            } else {
                PrefixParseFn::Identifier
            }
        },
        TokenType::Operator(_) => PrefixParseFn::PrefixExpression,
        TokenType::If => PrefixParseFn::IfExpression,
        TokenType::LParen => PrefixParseFn::GroupedExpression,
        TokenType::LBracket => PrefixParseFn::IndexMapLiteral,
        _ => {
            return Err(one_error(no_expression_error(token)));
        },
    };
    Ok(func)
}

/// Whether an expression can begin with `token`.
fn starts_expression(token: &Token, operators: &OperatorTable) -> (r: bool)
    ensures
        r == can_start(operators@, token@.kind),
{
    match token.token_type() {
        TokenType::Number(_) => true,
        TokenType::Str(_) => true,
        TokenType::Pipe => true,
        TokenType::Ident(_) => true,
        TokenType::Operator(name) => operators.lookup(
            name.as_str(),
            OperatorType::Prefix,
        ).is_some(),
        TokenType::If => true,
        TokenType::LParen => true,
        TokenType::LBracket => true,
        _ => false,
    }
}

/// Whether an argument of a call can begin with `token`.
fn starts_argument(token: &Token, operators: &OperatorTable) -> (r: bool)
    ensures
        r == can_start_argument(operators@, token@.kind),
{
    operator_of(operators, token, OperatorType::Infix).is_none() && operator_of(
        operators,
        token,
        OperatorType::Postfix,
    ).is_none() && starts_expression(token, operators)
}

/// The way an expression goes on with `token`, if it does. `callable` says
/// whether the expression is a name that arguments can follow.
fn infix_parse_lookup(token: &Token, operators: &OperatorTable, callable: bool) -> (r: Option<
    InfixParseFn,
>)
    ensures
        r == infix_parse(operators@, token@.kind, callable),
{
    if operator_of(operators, token, OperatorType::Infix).is_some() {
        Some(InfixParseFn::InfixExpression)
    } else if operator_of(operators, token, OperatorType::Postfix).is_some() {
        Some(InfixParseFn::PostfixExpression)
    } else if callable && starts_expression(token, operators) {
        Some(InfixParseFn::Call)
    } else {
        None
    }
}

/// Whether the parser passes over `token`: it does over comments and white
/// space.
pub fn ignored(token: &Token) -> (r: bool)
    ensures
        r == ignored_kind(token@.kind),
{
    match token.token_type() {
        TokenType::Comment(_) => true,
        TokenType::Space => true,
        TokenType::Tab => true,
        TokenType::Newline => true,
        _ => false,
    }
}

} // verus!
