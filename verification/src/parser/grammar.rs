//! What parsing means: the expression that a sequence of tokens stands for
//! under a set of operator definitions, as a function of the two.
//!
//! Positions are indices into the tokens left after comments and white
//! space are taken out. Every parse begins with the cursor on the first
//! token of what it reads and, where it succeeds, ends with the cursor on
//! the last token it read.
//!
//! An expression begins with a literal, a name, a prefix operator, a
//! function literal, a conditional, a group or a list. It goes on for as
//! long as the next token is an infix or a postfix operator that binds
//! tighter than the floor the expression is read under. Operands are read
//! under the precedence of their operator, so infix operators of one
//! precedence group to the left: `a - b - c` is `(a - b) - c`. The whole
//! expression is read under the lowest precedence, so an operator of the
//! lowest level is never taken in.
//!
//! A name that is directly followed by a token with which an expression can
//! begin is called: the expressions that follow, one behind the other, are
//! its arguments, `f x y` being one call with two arguments. A call binds
//! tighter than any operator, and its arguments take in no operators and no
//! arguments of their own. Only a bare name is called this way, not what
//! stands in parentheses, so `(f) x` ends behind the group.
//!
//! A parse that fails ends where the failure was found. It then yields one
//! diagnostic and, where something had been read that stands for itself,
//! that expression:
//!
//! - an operator or a call whose operand or argument fails yields the
//!   expression to its left;
//! - a group that lacks its `)` yields the expression inside;
//! - a list yields the elements read before the failure;
//! - a conditional whose alternative fails yields the conditional without
//!   one;
//! - anything else hands on what the part that failed yields.

use vstd::prelude::*;
use crate::ast::Tree;
use crate::error::Diagnostic;
use crate::operator::{find, reserved_precedence, OperatorType, OperatorView, Precedence};
use crate::token::{token_text, TokenKind, TokenView};

verus! {

/// The parser does not see tokens of this kind.
pub open spec fn ignored_kind(kind: TokenKind) -> bool {
    kind is Comment || kind is Space || kind is Tab || kind is Newline
}

/// The tokens that the parser sees: all but comments and white space.
pub open spec fn significant(tokens: Seq<TokenView>) -> Seq<TokenView> {
    tokens.filter(|token: TokenView| !ignored_kind(token.kind))
}

/// How many tokens stand at or after `pos`.
pub open spec fn left_in(toks: Seq<TokenView>, pos: nat) -> nat {
    if pos < toks.len() {
        (toks.len() - pos) as nat
    } else {
        0
    }
}

/// The token at `pos`, if there is one.
pub open spec fn token_at(toks: Seq<TokenView>, pos: nat) -> Option<TokenView> {
    if pos < toks.len() {
        Some(toks[pos as int])
    } else {
        None
    }
}

/// A token of kind `kind` stands at `pos`.
pub open spec fn kind_at(toks: Seq<TokenView>, pos: nat, kind: TokenKind) -> bool {
    pos < toks.len() && toks[pos as int].kind == kind
}

/// The name a token can be declared an operator under: the text of an
/// identifier or of a run of operator symbols.
pub open spec fn name_of(kind: TokenKind) -> Option<Seq<char>> {
    match kind {
        TokenKind::Ident(name) => Some(name),
        TokenKind::Operator(name) => Some(name),
        _ => None,
    }
}

/// The definition that makes a token of kind `kind` an operator of type
/// `op_type`, if there is one.
pub open spec fn operator_for(ops: Seq<OperatorView>, kind: TokenKind, op_type: OperatorType)
    -> Option<OperatorView> {
    match name_of(kind) {
        Some(name) => find(ops, name, op_type),
        None => None,
    }
}

/// The precedence of a token that follows an expression: the one the
/// language reserves for it; else the one it is declared with as an infix
/// or, failing that, as a postfix operator; else the lowest.
pub open spec fn token_precedence(ops: Seq<OperatorView>, kind: TokenKind) -> Precedence {
    match reserved_precedence(kind) {
        Some(precedence) => precedence,
        None => match operator_for(ops, kind, OperatorType::Infix) {
            Some(op) => op.precedence,
            None => match operator_for(ops, kind, OperatorType::Postfix) {
                Some(op) => op.precedence,
                None => Precedence::First,
            },
        },
    }
}

/// How tightly a call binds what is called to its arguments: tighter than
/// any declared operator.
pub open spec fn call_rank() -> nat {
    10
}

/// The diagnostic for a source that ends where an expression is due.
pub open spec fn premature_end() -> Diagnostic {
    Diagnostic { message: "premature end of input"@, offset: None }
}

/// The diagnostic for a token that begins no expression.
pub open spec fn no_expression(token: TokenView) -> Diagnostic {
    Diagnostic {
        message: "no expression can start with token `"@ + token_text(token.kind) + "`"@,
        offset: Some(token.offset),
    }
}

/// The diagnostic for a token that stands where an operator of type
/// `op_type` is due and is not declared as one.
pub open spec fn undefined_operator(token: TokenView, op_type: OperatorType) -> Diagnostic {
    Diagnostic {
        message: "`"@ + token_text(token.kind) + "` is not defined as "@ + match op_type {
            OperatorType::Prefix => "a prefix operator"@,
            OperatorType::Infix => "an infix operator"@,
            OperatorType::Postfix => "a postfix operator"@,
        },
        offset: Some(token.offset),
    }
}

/// The diagnostic for a token of kind `wanted` that is due and not there:
/// `found` stands in its place, or the source has ended.
pub open spec fn expected(wanted: TokenKind, found: Option<TokenView>) -> Diagnostic {
    match found {
        Some(token) => Diagnostic {
            message: "expected `"@ + token_text(wanted) + "` but found `"@ + token_text(
                token.kind,
            ) + "`"@,
            offset: Some(token.offset),
        },
        None => Diagnostic {
            message: "expected `"@ + token_text(wanted) + "` but the input ended"@,
            offset: None,
        },
    }
}

/// The diagnostic for a token that stands where the name of a parameter is
/// due.
pub open spec fn expected_parameter(found: TokenView) -> Diagnostic {
    Diagnostic {
        message: "expected a parameter name but found `"@ + token_text(found.kind) + "`"@,
        offset: Some(found.offset),
    }
}

/// The diagnostic for a token that stands where a literal is due.
pub open spec fn expected_literal(found: TokenView) -> Diagnostic {
    Diagnostic {
        message: "expected a literal but found `"@ + token_text(found.kind) + "`"@,
        offset: Some(found.offset),
    }
}

/// How a parse ends: with the expression, or with what had been read of
/// the expression, if anything, and the diagnostics that say why it is not
/// whole.
pub enum Outcome {
    Done(Tree),
    Failed(Option<Tree>, Seq<Diagnostic>),
}

/// A parse: how far it moves the cursor, and how it ends.
pub struct Parse {
    pub advance: nat,
    pub outcome: Outcome,
}

pub open spec fn done(advance: nat, tree: Tree) -> Parse {
    Parse { advance, outcome: Outcome::Done(tree) }
}

pub open spec fn failed(advance: nat, partial: Option<Tree>, diagnostic: Diagnostic) -> Parse {
    Parse { advance, outcome: Outcome::Failed(partial, seq![diagnostic]) }
}

pub open spec fn rejected(advance: nat, partial: Option<Tree>, diagnostics: Seq<Diagnostic>)
    -> Parse {
    Parse { advance, outcome: Outcome::Failed(partial, diagnostics) }
}

/// The parse `parse`, begun after the cursor has moved by `moved`.
pub open spec fn after(moved: nat, parse: Parse) -> Parse {
    Parse { advance: moved + parse.advance, outcome: parse.outcome }
}

/// The best expression that a parse yields, whether it succeeds or not.
pub open spec fn best_effort(outcome: Outcome) -> Option<Tree> {
    match outcome {
        Outcome::Done(tree) => Some(tree),
        Outcome::Failed(partial, _) => partial,
    }
}

/// What a parse adds to the diagnostics.
pub open spec fn complaints(outcome: Outcome) -> Seq<Diagnostic> {
    match outcome {
        Outcome::Done(_) => Seq::empty(),
        Outcome::Failed(_, diagnostics) => diagnostics,
    }
}

/// The ways an expression can begin.
#[derive(Clone, Copy, Debug, PartialEq, Eq, Structural)]
pub enum PrefixParseFn {
    Number,
    StringLiteral,
    FunctionLiteral,
    Identifier,
    PrefixExpression,
    IfExpression,
    GroupedExpression,
    IndexMapLiteral,
}

/// The ways an expression can go on behind its beginning.
#[derive(Clone, Copy, Debug, PartialEq, Eq, Structural)]
pub enum InfixParseFn {
    InfixExpression,
    PostfixExpression,
    Call,
}

/// The way an expression begins that begins with `token`. An identifier is
/// an operator where it is declared as a prefix operator, and a name
/// otherwise; a run of operator symbols is an operator in any case.
pub open spec fn prefix_parse(ops: Seq<OperatorView>, token: TokenView) -> Result<
    PrefixParseFn,
    Diagnostic,
> {
    match token.kind {
        TokenKind::Number(_) => Ok(PrefixParseFn::Number),
        TokenKind::Str(_) => Ok(PrefixParseFn::StringLiteral),
        TokenKind::Pipe => Ok(PrefixParseFn::FunctionLiteral),
        TokenKind::Ident(name) => if find(ops, name, OperatorType::Prefix) is Some {
            Ok(PrefixParseFn::PrefixExpression)
        } else {
            Ok(PrefixParseFn::Identifier)
        },
        TokenKind::Operator(_) => Ok(PrefixParseFn::PrefixExpression),
        TokenKind::If => Ok(PrefixParseFn::IfExpression),
        TokenKind::LParen => Ok(PrefixParseFn::GroupedExpression),
        TokenKind::LBracket => Ok(PrefixParseFn::IndexMapLiteral),
        _ => Err(no_expression(token)),
    }
}

/// An expression can begin with a token of this kind.
pub open spec fn can_start(ops: Seq<OperatorView>, kind: TokenKind) -> bool {
    match kind {
        TokenKind::Number(_) => true,
        TokenKind::Str(_) => true,
        TokenKind::Pipe => true,
        TokenKind::Ident(_) => true,
        TokenKind::Operator(name) => find(ops, name, OperatorType::Prefix) is Some,
        TokenKind::If => true,
        TokenKind::LParen => true,
        TokenKind::LBracket => true,
        _ => false,
    }
}

/// An argument of a call can begin with a token of this kind: an
/// expression can, and the token is no infix or postfix operator.
pub open spec fn can_start_argument(ops: Seq<OperatorView>, kind: TokenKind) -> bool {
    &&& operator_for(ops, kind, OperatorType::Infix) is None
    &&& operator_for(ops, kind, OperatorType::Postfix) is None
    &&& can_start(ops, kind)
}

/// The way an expression goes on with a token of kind `kind`, if it does:
/// with an infix operator, else with a postfix operator, else, where the
/// expression is a name that can be called, with the arguments of a call.
pub open spec fn infix_parse(ops: Seq<OperatorView>, kind: TokenKind, callable: bool) -> Option<
    InfixParseFn,
> {
    if operator_for(ops, kind, OperatorType::Infix) is Some {
        Some(InfixParseFn::InfixExpression)
    } else if operator_for(ops, kind, OperatorType::Postfix) is Some {
        Some(InfixParseFn::PostfixExpression)
    } else if callable && can_start(ops, kind) {
        Some(InfixParseFn::Call)
    } else {
        None
    }
}

/// How tightly the continuation of an expression with a token of kind
/// `kind` binds.
pub open spec fn binding(ops: Seq<OperatorView>, kind: TokenKind, how: InfixParseFn) -> nat {
    match how {
        InfixParseFn::Call => call_rank(),
        _ => token_precedence(ops, kind).rank(),
    }
}

/// The expression is a name that arguments can follow: it begins with an
/// identifier that is not a prefix operator. What a group holds cannot be
/// called.
pub open spec fn callable_at(toks: Seq<TokenView>, ops: Seq<OperatorView>, pos: nat) -> bool {
    pos < toks.len() && prefix_parse(ops, toks[pos as int]) == Ok::<PrefixParseFn, Diagnostic>(
        PrefixParseFn::Identifier,
    )
}

/// A number literal: the token at `pos`.
pub open spec fn number(toks: Seq<TokenView>, pos: nat) -> Parse {
    match token_at(toks, pos) {
        Some(token) => match token.kind {
            TokenKind::Number(digits) => done(0, Tree::Number(digits)),
            _ => failed(0, None, expected_literal(token)),
        },
        None => failed(0, None, premature_end()),
    }
}

/// A string literal: the token at `pos`.
pub open spec fn string_literal(toks: Seq<TokenView>, pos: nat) -> Parse {
    match token_at(toks, pos) {
        Some(token) => match token.kind {
            TokenKind::Str(text) => done(0, Tree::Str(text)),
            _ => failed(0, None, expected_literal(token)),
        },
        None => failed(0, None, premature_end()),
    }
}

/// A name: the token at `pos`.
pub open spec fn identifier(toks: Seq<TokenView>, pos: nat) -> Parse {
    match token_at(toks, pos) {
        Some(token) => match token.kind {
            TokenKind::Ident(name) => done(0, Tree::Ident(name)),
            _ => failed(0, None, no_expression(token)),
        },
        None => failed(0, None, premature_end()),
    }
}

/// The names read for a list of parameters, or the diagnostic, and how far
/// the cursor moves.
pub struct Names {
    pub advance: nat,
    pub names: Result<Seq<Seq<char>>, Seq<Diagnostic>>,
}

/// The parameter names that begin at `pos`, separated by commas, added to
/// `read`.
pub open spec fn parameter_names(toks: Seq<TokenView>, pos: nat, read: Seq<Seq<char>>) -> Names
    decreases left_in(toks, pos),
{
    match token_at(toks, pos) {
        Some(token) => match token.kind {
            TokenKind::Ident(name) => if kind_at(toks, pos + 1, TokenKind::Comma) {
                let more = parameter_names(toks, pos + 2, read.push(name));
                Names { advance: 2 + more.advance, names: more.names }
            } else {
                Names { advance: 0, names: Ok(read.push(name)) }
            },
            _ => Names { advance: 0, names: Err(seq![expected_parameter(token)]) },
        },
        None => Names { advance: 0, names: Err(seq![premature_end()]) },
    }
}

/// The parameters of a function literal whose opening `|` stands at `pos`:
/// one name or more, and the closing `|`.
pub open spec fn function_parameters(toks: Seq<TokenView>, pos: nat) -> Names {
    let list = parameter_names(toks, pos + 1, Seq::empty());
    match list.names {
        Ok(names) => {
            let last = pos + 1 + list.advance;
            if kind_at(toks, last + 1, TokenKind::Pipe) {
                Names { advance: list.advance + 2, names: Ok(names) }
            } else {
                Names {
                    advance: list.advance + 1,
                    names: Err(seq![expected(TokenKind::Pipe, token_at(toks, last + 1))]),
                }
            }
        },
        Err(diagnostics) => Names { advance: list.advance + 1, names: Err(diagnostics) },
    }
}

/// The expressions read for a list, or the diagnostic, and how far the
/// cursor moves.
pub struct Items {
    pub advance: nat,
    pub items: Result<Seq<Tree>, Seq<Diagnostic>>,
}

/// The expression that begins at `pos` and takes in no operator that binds
/// as loosely as `floor` or more loosely.
pub open spec fn parse_expression(
    toks: Seq<TokenView>,
    ops: Seq<OperatorView>,
    pos: nat,
    floor: nat,
) -> Parse
    decreases left_in(toks, pos), 3nat,
{
    let head = parse_head(toks, ops, pos);
    match head.outcome {
        Outcome::Done(left) => after(
            head.advance,
            parse_tail(toks, ops, pos + head.advance, floor, left, callable_at(toks, ops, pos)),
        ),
        Outcome::Failed(_, _) => head,
    }
}

/// The beginning of the expression at `pos`: what it is before any infix
/// operator, postfix operator or argument is taken in.
pub open spec fn parse_head(toks: Seq<TokenView>, ops: Seq<OperatorView>, pos: nat) -> Parse
    decreases left_in(toks, pos), 2nat,
{
    match token_at(toks, pos) {
        Some(token) => match prefix_parse(ops, token) {
            Ok(how) => match how {
                PrefixParseFn::Number => number(toks, pos),
                PrefixParseFn::StringLiteral => string_literal(toks, pos),
                PrefixParseFn::FunctionLiteral => function_literal(toks, ops, pos),
                PrefixParseFn::Identifier => identifier(toks, pos),
                PrefixParseFn::PrefixExpression => prefix_expression(toks, ops, pos),
                PrefixParseFn::IfExpression => if_expression(toks, ops, pos),
                PrefixParseFn::GroupedExpression => grouped_expression(toks, ops, pos),
                PrefixParseFn::IndexMapLiteral => index_map_literal(toks, ops, pos),
            },
            Err(diagnostic) => failed(0, None, diagnostic),
        },
        None => failed(0, None, premature_end()),
    }
}

/// What the expression `left`, whose last token stands at `last`, becomes
/// as the operators and arguments behind it are taken in, one after the
/// other, as long as they bind tighter than `floor`.
pub open spec fn parse_tail(
    toks: Seq<TokenView>,
    ops: Seq<OperatorView>,
    last: nat,
    floor: nat,
    left: Tree,
    callable: bool,
) -> Parse
    decreases left_in(toks, last), 0nat,
{
    match token_at(toks, last + 1) {
        Some(token) => match infix_parse(ops, token.kind, callable) {
            Some(how) => if floor < binding(ops, token.kind, how) {
                let step = match how {
                    InfixParseFn::InfixExpression => infix_expression(toks, ops, last + 1, left),
                    InfixParseFn::PostfixExpression => postfix_expression(
                        toks,
                        ops,
                        last + 1,
                        left,
                    ),
                    InfixParseFn::Call => call_expression(toks, ops, last + 1, left),
                };
                match step.outcome {
                    Outcome::Done(longer) => after(
                        1 + step.advance,
                        parse_tail(toks, ops, last + 1 + step.advance, floor, longer, false),
                    ),
                    Outcome::Failed(_, _) => after(1, step),
                }
            } else {
                done(0, left)
            },
            None => done(0, left),
        },
        None => done(0, left),
    }
}

/// A function literal whose opening `|` stands at `pos`: the parameters,
/// then one expression as the body.
pub open spec fn function_literal(toks: Seq<TokenView>, ops: Seq<OperatorView>, pos: nat) -> Parse
    decreases left_in(toks, pos), 1nat,
{
    if pos < toks.len() {
        let parameters = function_parameters(toks, pos);
        match parameters.names {
            Ok(names) => {
                let body = parse_expression(toks, ops, pos + parameters.advance + 1, 0);
                match body.outcome {
                    Outcome::Done(tree) => done(
                        parameters.advance + 1 + body.advance,
                        Tree::Function(names, Box::new(tree)),
                    ),
                    Outcome::Failed(_, _) => after(parameters.advance + 1, body),
                }
            },
            Err(diagnostics) => rejected(parameters.advance, None, diagnostics),
        }
    } else {
        failed(0, None, premature_end())
    }
}

/// A prefix operator, which stands at `pos`, applied to the expression
/// behind it.
pub open spec fn prefix_expression(toks: Seq<TokenView>, ops: Seq<OperatorView>, pos: nat) -> Parse
    decreases left_in(toks, pos), 1nat,
{
    if pos < toks.len() {
        match operator_for(ops, toks[pos as int].kind, OperatorType::Prefix) {
            Some(op) => {
                let operand = parse_expression(toks, ops, pos + 1, op.precedence.rank());
                match operand.outcome {
                    Outcome::Done(tree) => done(
                        1 + operand.advance,
                        Tree::Prefix(op, Box::new(tree)),
                    ),
                    Outcome::Failed(_, _) => after(1, operand),
                }
            },
            None => failed(0, None, undefined_operator(toks[pos as int], OperatorType::Prefix)),
        }
    } else {
        failed(0, None, premature_end())
    }
}

/// A conditional whose `if` stands at `pos`: the condition, the
/// consequent, and, behind an `else`, the alternative.
pub open spec fn if_expression(toks: Seq<TokenView>, ops: Seq<OperatorView>, pos: nat) -> Parse
    decreases left_in(toks, pos), 1nat,
{
    if pos < toks.len() {
        let first = parse_expression(toks, ops, pos + 1, 0);
        match first.outcome {
            Outcome::Done(condition) => after(
                1 + first.advance,
                if_consequent(toks, ops, pos + 1 + first.advance, condition),
            ),
            Outcome::Failed(_, _) => after(1, first),
        }
    } else {
        failed(0, None, premature_end())
    }
}

/// The rest of a conditional behind its condition, whose last token stands
/// at `last`.
pub open spec fn if_consequent(
    toks: Seq<TokenView>,
    ops: Seq<OperatorView>,
    last: nat,
    condition: Tree,
) -> Parse
    decreases left_in(toks, last), 5nat,
{
    let second = parse_expression(toks, ops, last + 1, 0);
    match second.outcome {
        Outcome::Done(consequent) => after(
            1 + second.advance,
            if_alternative(toks, ops, last + 1 + second.advance, condition, consequent),
        ),
        Outcome::Failed(_, _) => after(1, second),
    }
}

/// The rest of a conditional behind its consequent, whose last token stands
/// at `last`.
pub open spec fn if_alternative(
    toks: Seq<TokenView>,
    ops: Seq<OperatorView>,
    last: nat,
    condition: Tree,
    consequent: Tree,
) -> Parse
    decreases left_in(toks, last), 4nat,
{
    if kind_at(toks, last + 1, TokenKind::Else) {
        let third = parse_expression(toks, ops, last + 2, 0);
        match third.outcome {
            Outcome::Done(alternative) => done(
                2 + third.advance,
                Tree::If(Box::new(condition), Box::new(consequent), Some(Box::new(alternative))),
            ),
            Outcome::Failed(_, diagnostics) => rejected(
                2 + third.advance,
                Some(Tree::If(Box::new(condition), Box::new(consequent), None)),
                diagnostics,
            ),
        }
    } else {
        done(0, Tree::If(Box::new(condition), Box::new(consequent), None))
    }
}

/// A group whose `(` stands at `pos`: one expression and the `)`.
pub open spec fn grouped_expression(toks: Seq<TokenView>, ops: Seq<OperatorView>, pos: nat)
    -> Parse
    decreases left_in(toks, pos), 1nat,
{
    if pos < toks.len() {
        let inner = parse_expression(toks, ops, pos + 1, 0);
        match inner.outcome {
            Outcome::Done(tree) => {
                let last = pos + 1 + inner.advance;
                if kind_at(toks, last + 1, TokenKind::RParen) {
                    done(inner.advance + 2, tree)
                } else {
                    failed(
                        inner.advance + 1,
                        Some(tree),
                        expected(TokenKind::RParen, token_at(toks, last + 1)),
                    )
                }
            },
            Outcome::Failed(_, _) => after(1, inner),
        }
    } else {
        failed(0, None, premature_end())
    }
}

/// A list whose `[` stands at `pos`: no element, or elements separated by
/// commas, and the `]`.
pub open spec fn index_map_literal(toks: Seq<TokenView>, ops: Seq<OperatorView>, pos: nat) -> Parse
    decreases left_in(toks, pos), 1nat,
{
    if pos < toks.len() {
        if kind_at(toks, pos + 1, TokenKind::RBracket) {
            done(1, Tree::IndexMap(Seq::empty()))
        } else {
            after(1, elements(toks, ops, pos + 1, Seq::empty()))
        }
    } else {
        failed(0, None, premature_end())
    }
}

/// The elements of a list from the one that begins at `pos` on, added to
/// `read`, and the `]`.
pub open spec fn elements(
    toks: Seq<TokenView>,
    ops: Seq<OperatorView>,
    pos: nat,
    read: Seq<Tree>,
) -> Parse
    decreases left_in(toks, pos), 4nat,
{
    let element = parse_expression(toks, ops, pos, 0);
    match element.outcome {
        Outcome::Done(tree) => {
            let last = pos + element.advance;
            if kind_at(toks, last + 1, TokenKind::Comma) {
                after(element.advance + 2, elements(toks, ops, last + 2, read.push(tree)))
            } else if kind_at(toks, last + 1, TokenKind::RBracket) {
                done(element.advance + 1, Tree::IndexMap(read.push(tree)))
            } else {
                failed(
                    element.advance,
                    Some(Tree::IndexMap(read.push(tree))),
                    expected(TokenKind::RBracket, token_at(toks, last + 1)),
                )
            }
        },
        Outcome::Failed(_, diagnostics) => rejected(
            element.advance,
            Some(Tree::IndexMap(read)),
            diagnostics,
        ),
    }
}

/// The infix operator at `pos` between `left` and the expression behind
/// it.
pub open spec fn infix_expression(
    toks: Seq<TokenView>,
    ops: Seq<OperatorView>,
    pos: nat,
    left: Tree,
) -> Parse
    decreases left_in(toks, pos), 1nat,
{
    if pos < toks.len() {
        match operator_for(ops, toks[pos as int].kind, OperatorType::Infix) {
            Some(op) => {
                let right = parse_expression(toks, ops, pos + 1, op.precedence.rank());
                match right.outcome {
                    Outcome::Done(tree) => done(
                        1 + right.advance,
                        Tree::Infix(Box::new(left), op, Box::new(tree)),
                    ),
                    Outcome::Failed(_, diagnostics) => rejected(
                        1 + right.advance,
                        Some(left),
                        diagnostics,
                    ),
                }
            },
            None => failed(
                0,
                Some(left),
                undefined_operator(toks[pos as int], OperatorType::Infix),
            ),
        }
    } else {
        failed(0, Some(left), premature_end())
    }
}

/// The postfix operator at `pos` applied to `left`.
pub open spec fn postfix_expression(
    toks: Seq<TokenView>,
    ops: Seq<OperatorView>,
    pos: nat,
    left: Tree,
) -> Parse {
    match token_at(toks, pos) {
        Some(token) => match operator_for(ops, token.kind, OperatorType::Postfix) {
            Some(op) => done(0, Tree::Postfix(Box::new(left), op)),
            None => failed(0, Some(left), undefined_operator(token, OperatorType::Postfix)),
        },
        None => failed(0, Some(left), premature_end()),
    }
}

/// The call of `callee` with the arguments that begin at `pos`.
pub open spec fn call_expression(
    toks: Seq<TokenView>,
    ops: Seq<OperatorView>,
    pos: nat,
    callee: Tree,
) -> Parse
    decreases left_in(toks, pos), 5nat,
{
    let list = arguments(toks, ops, pos, Seq::empty());
    match list.items {
        Ok(items) => done(list.advance, Tree::Call(Box::new(callee), items)),
        Err(diagnostics) => rejected(list.advance, Some(callee), diagnostics),
    }
}

/// The arguments of a call from the one that begins at `pos` on, added to
/// `read`. Arguments stand one behind the other; each is an expression that
/// takes in no operator and no arguments of its own.
pub open spec fn arguments(
    toks: Seq<TokenView>,
    ops: Seq<OperatorView>,
    pos: nat,
    read: Seq<Tree>,
) -> Items
    decreases left_in(toks, pos), 4nat,
{
    let argument = parse_expression(toks, ops, pos, call_rank());
    match argument.outcome {
        Outcome::Done(tree) => {
            let last = pos + argument.advance;
            if last + 1 < toks.len() && can_start_argument(ops, toks[(last + 1) as int].kind) {
                let more = arguments(toks, ops, last + 1, read.push(tree));
                Items { advance: argument.advance + 1 + more.advance, items: more.items }
            } else {
                Items { advance: argument.advance, items: Ok(read.push(tree)) }
            }
        },
        Outcome::Failed(_, diagnostics) => Items {
            advance: argument.advance,
            items: Err(diagnostics),
        },
    }
}

} // verus!
