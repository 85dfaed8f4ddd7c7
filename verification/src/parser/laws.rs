//! What holds of every parse.

use vstd::prelude::*;
use crate::ast::Tree;
use crate::operator::{find, OperatorType, OperatorView};
use crate::parser::grammar::{
    after, arguments, binding, call_expression, call_rank, callable_at, can_start_argument, done,
    elements, failed, function_literal, function_parameters, grouped_expression, if_alternative,
    if_consequent, if_expression, index_map_literal, infix_expression, infix_parse, kind_at,
    left_in, number, operator_for, parameter_names, parse_expression, parse_head, parse_tail,
    postfix_expression, prefix_expression, prefix_parse, premature_end, token_at, InfixParseFn,
    Items, Names, Outcome, Parse, PrefixParseFn,
};
use crate::token::{TokenKind, TokenView};

verus! {

/// The expression that a token is by itself: a number, a string, or a name
/// that is not declared as an operator of any type.
pub open spec fn operand(ops: Seq<OperatorView>, token: TokenView) -> Option<Tree> {
    match token.kind {
        TokenKind::Number(digits) => Some(Tree::Number(digits)),
        TokenKind::Str(text) => Some(Tree::Str(text)),
        TokenKind::Ident(name) => if find(ops, name, OperatorType::Prefix) is None && find(
            ops,
            name,
            OperatorType::Infix,
        ) is None && find(ops, name, OperatorType::Postfix) is None {
            Some(Tree::Ident(name))
        } else {
            None
        },
        _ => None,
    }
}

/// The token is declared as the infix operator `op`.
pub open spec fn infix_token(ops: Seq<OperatorView>, token: TokenView, op: OperatorView) -> bool {
    operator_for(ops, token.kind, OperatorType::Infix) == Some(op)
}

/// `left op right`
pub open spec fn infix(left: Tree, op: OperatorView, right: Tree) -> Tree {
    Tree::Infix(Box::new(left), op, Box::new(right))
}

/// A parse that succeeds ends on a token, and one that fails gives exactly
/// one diagnostic.
pub open spec fn settled(toks: Seq<TokenView>, start: nat, parse: Parse) -> bool {
    match parse.outcome {
        Outcome::Done(_) => start + parse.advance < toks.len(),
        Outcome::Failed(_, diagnostics) => diagnostics.len() == 1,
    }
}

/// The same of a list of parameter names.
pub open spec fn names_settled(toks: Seq<TokenView>, start: nat, list: Names) -> bool {
    match list.names {
        Ok(_) => start + list.advance < toks.len(),
        Err(diagnostics) => diagnostics.len() == 1,
    }
}

/// The same of a list of arguments.
pub open spec fn items_settled(toks: Seq<TokenView>, start: nat, list: Items) -> bool {
    match list.items {
        Ok(_) => start + list.advance < toks.len(),
        Err(diagnostics) => diagnostics.len() == 1,
    }
}

/// Every parse of an expression ends on a token or gives exactly one
/// diagnostic: nothing that is wrong with the tokens goes unsaid, and
/// nothing is said twice.
pub proof fn lemma_parse_expression_settled(
    toks: Seq<TokenView>,
    ops: Seq<OperatorView>,
    pos: nat,
    floor: nat,
)
    ensures
        settled(toks, pos, parse_expression(toks, ops, pos, floor)),
    decreases left_in(toks, pos), 3nat,
{
    lemma_parse_head_settled(toks, ops, pos);
    let head = parse_head(toks, ops, pos);
    match head.outcome {
        Outcome::Done(left) => {
            lemma_parse_tail_settled(
                toks,
                ops,
                pos + head.advance,
                floor,
                left,
                callable_at(toks, ops, pos),
            );
        },
        Outcome::Failed(_, _) => {},
    }
}

proof fn lemma_parse_head_settled(toks: Seq<TokenView>, ops: Seq<OperatorView>, pos: nat)
    ensures
        settled(toks, pos, parse_head(toks, ops, pos)),
    decreases left_in(toks, pos), 2nat,
{
    match token_at(toks, pos) {
        Some(token) => match prefix_parse(ops, token) {
            Ok(how) => match how {
                PrefixParseFn::Number => {},
                PrefixParseFn::StringLiteral => {},
                PrefixParseFn::FunctionLiteral => {
                    lemma_function_literal_settled(toks, ops, pos);
                },
                PrefixParseFn::Identifier => {},
                PrefixParseFn::PrefixExpression => {
                    lemma_prefix_expression_settled(toks, ops, pos);
                },
                PrefixParseFn::IfExpression => {
                    lemma_if_expression_settled(toks, ops, pos);
                },
                PrefixParseFn::GroupedExpression => {
                    lemma_grouped_expression_settled(toks, ops, pos);
                },
                PrefixParseFn::IndexMapLiteral => {
                    lemma_index_map_literal_settled(toks, ops, pos);
                },
            },
            Err(_) => {},
        },
        None => {},
    }
}

proof fn lemma_parse_tail_settled(
    toks: Seq<TokenView>,
    ops: Seq<OperatorView>,
    last: nat,
    floor: nat,
    left: Tree,
    callable: bool,
)
    requires
        last < toks.len(),
    ensures
        settled(toks, last, parse_tail(toks, ops, last, floor, left, callable)),
    decreases left_in(toks, last), 0nat,
{
    match token_at(toks, last + 1) {
        Some(token) => match infix_parse(ops, token.kind, callable) {
            Some(how) => if floor < binding(ops, token.kind, how) {
                let step = match how {
                    InfixParseFn::InfixExpression => {
                        lemma_infix_expression_settled(toks, ops, last + 1, left);
                        infix_expression(toks, ops, last + 1, left)
                    },
                    InfixParseFn::PostfixExpression => postfix_expression(
                        toks,
                        ops,
                        last + 1,
                        left,
                    ),
                    InfixParseFn::Call => {
                        lemma_arguments_settled(toks, ops, last + 1, Seq::empty());
                        call_expression(toks, ops, last + 1, left)
                    },
                };
                match step.outcome {
                    Outcome::Done(longer) => {
                        lemma_parse_tail_settled(
                            toks,
                            ops,
                            last + 1 + step.advance,
                            floor,
                            longer,
                            false,
                        );
                    },
                    Outcome::Failed(_, _) => {},
                }
            },
            None => {},
        },
        None => {},
    }
}

proof fn lemma_parameter_names_settled(toks: Seq<TokenView>, pos: nat, read: Seq<Seq<char>>)
    ensures
        names_settled(toks, pos, parameter_names(toks, pos, read)),
    decreases left_in(toks, pos),
{
    match token_at(toks, pos) {
        Some(token) => match token.kind {
            TokenKind::Ident(name) => if kind_at(toks, pos + 1, TokenKind::Comma) {
                lemma_parameter_names_settled(toks, pos + 2, read.push(name));
            },
            _ => {},
        },
        None => {},
    }
}

proof fn lemma_function_parameters_settled(toks: Seq<TokenView>, pos: nat)
    ensures
        names_settled(toks, pos, function_parameters(toks, pos)),
{
    lemma_parameter_names_settled(toks, pos + 1, Seq::empty());
}

proof fn lemma_function_literal_settled(toks: Seq<TokenView>, ops: Seq<OperatorView>, pos: nat)
    ensures
        settled(toks, pos, function_literal(toks, ops, pos)),
    decreases left_in(toks, pos), 1nat,
{
    if pos < toks.len() {
        lemma_function_parameters_settled(toks, pos);
        let parameters = function_parameters(toks, pos);
        if parameters.names is Ok {
            lemma_parse_expression_settled(toks, ops, pos + parameters.advance + 1, 0);
        }
    }
}

proof fn lemma_prefix_expression_settled(toks: Seq<TokenView>, ops: Seq<OperatorView>, pos: nat)
    ensures
        settled(toks, pos, prefix_expression(toks, ops, pos)),
    decreases left_in(toks, pos), 1nat,
{
    if pos < toks.len() {
        match operator_for(ops, toks[pos as int].kind, OperatorType::Prefix) {
            Some(op) => {
                lemma_parse_expression_settled(toks, ops, pos + 1, op.precedence.rank());
            },
            None => {},
        }
    }
}

proof fn lemma_if_expression_settled(toks: Seq<TokenView>, ops: Seq<OperatorView>, pos: nat)
    ensures
        settled(toks, pos, if_expression(toks, ops, pos)),
    decreases left_in(toks, pos), 1nat,
{
    if pos < toks.len() {
        lemma_parse_expression_settled(toks, ops, pos + 1, 0);
        let first = parse_expression(toks, ops, pos + 1, 0);
        match first.outcome {
            Outcome::Done(condition) => {
                lemma_if_consequent_settled(toks, ops, pos + 1 + first.advance, condition);
            },
            Outcome::Failed(_, _) => {},
        }
    }
}

proof fn lemma_if_consequent_settled(
    toks: Seq<TokenView>,
    ops: Seq<OperatorView>,
    last: nat,
    condition: Tree,
)
    requires
        last < toks.len(),
    ensures
        settled(toks, last, if_consequent(toks, ops, last, condition)),
    decreases left_in(toks, last), 5nat,
{
    lemma_parse_expression_settled(toks, ops, last + 1, 0);
    let second = parse_expression(toks, ops, last + 1, 0);
    match second.outcome {
        Outcome::Done(consequent) => {
            lemma_if_alternative_settled(
                toks,
                ops,
                last + 1 + second.advance,
                condition,
                consequent,
            );
        },
        Outcome::Failed(_, _) => {},
    }
}

proof fn lemma_if_alternative_settled(
    toks: Seq<TokenView>,
    ops: Seq<OperatorView>,
    last: nat,
    condition: Tree,
    consequent: Tree,
)
    requires
        last < toks.len(),
    ensures
        settled(toks, last, if_alternative(toks, ops, last, condition, consequent)),
    decreases left_in(toks, last), 4nat,
{
    if kind_at(toks, last + 1, TokenKind::Else) {
        lemma_parse_expression_settled(toks, ops, last + 2, 0);
    }
}

proof fn lemma_grouped_expression_settled(toks: Seq<TokenView>, ops: Seq<OperatorView>, pos: nat)
    ensures
        settled(toks, pos, grouped_expression(toks, ops, pos)),
    decreases left_in(toks, pos), 1nat,
{
    if pos < toks.len() {
        lemma_parse_expression_settled(toks, ops, pos + 1, 0);
    }
}

proof fn lemma_index_map_literal_settled(toks: Seq<TokenView>, ops: Seq<OperatorView>, pos: nat)
    ensures
        settled(toks, pos, index_map_literal(toks, ops, pos)),
    decreases left_in(toks, pos), 1nat,
{
    if pos < toks.len() && !kind_at(toks, pos + 1, TokenKind::RBracket) {
        lemma_elements_settled(toks, ops, pos + 1, Seq::empty());
    }
}

proof fn lemma_elements_settled(
    toks: Seq<TokenView>,
    ops: Seq<OperatorView>,
    pos: nat,
    read: Seq<Tree>,
)
    ensures
        settled(toks, pos, elements(toks, ops, pos, read)),
    decreases left_in(toks, pos), 4nat,
{
    lemma_parse_expression_settled(toks, ops, pos, 0);
    let element = parse_expression(toks, ops, pos, 0);
    match element.outcome {
        Outcome::Done(tree) => {
            let last = pos + element.advance;
            if kind_at(toks, last + 1, TokenKind::Comma) {
                lemma_elements_settled(toks, ops, last + 2, read.push(tree));
            }
        },
        Outcome::Failed(_, _) => {},
    }
}

proof fn lemma_infix_expression_settled(
    toks: Seq<TokenView>,
    ops: Seq<OperatorView>,
    pos: nat,
    left: Tree,
)
    ensures
        settled(toks, pos, infix_expression(toks, ops, pos, left)),
    decreases left_in(toks, pos), 1nat,
{
    if pos < toks.len() {
        match operator_for(ops, toks[pos as int].kind, OperatorType::Infix) {
            Some(op) => {
                lemma_parse_expression_settled(toks, ops, pos + 1, op.precedence.rank());
            },
            None => {},
        }
    }
}

proof fn lemma_arguments_settled(
    toks: Seq<TokenView>,
    ops: Seq<OperatorView>,
    pos: nat,
    read: Seq<Tree>,
)
    ensures
        items_settled(toks, pos, arguments(toks, ops, pos, read)),
    decreases left_in(toks, pos), 4nat,
{
    lemma_parse_expression_settled(toks, ops, pos, call_rank());
    let argument = parse_expression(toks, ops, pos, call_rank());
    match argument.outcome {
        Outcome::Done(tree) => {
            let last = pos + argument.advance;
            if last + 1 < toks.len() && can_start_argument(ops, toks[(last + 1) as int].kind) {
                lemma_arguments_settled(toks, ops, last + 1, read.push(tree));
            }
        },
        Outcome::Failed(_, _) => {},
    }
}

/// Where there are no tokens there is no expression: the parse fails at
/// once, for the input ends too early, and leaves nothing.
pub proof fn lemma_no_tokens_no_expression(ops: Seq<OperatorView>, floor: nat)
    ensures
        parse_expression(Seq::<TokenView>::empty(), ops, 0, floor) == failed(
            0,
            None,
            premature_end(),
        ),
{
}

/// An operand begins an expression as what it is by itself, and the cursor
/// stays on it.
pub proof fn lemma_operand_head(
    toks: Seq<TokenView>,
    ops: Seq<OperatorView>,
    pos: nat,
    tree: Tree,
)
    requires
        pos < toks.len(),
        operand(ops, toks[pos as int]) == Some(tree),
    ensures
        parse_head(toks, ops, pos) == done(0, tree),
{
}

/// An expression ends where the tokens end.
pub proof fn lemma_tail_at_end(
    toks: Seq<TokenView>,
    ops: Seq<OperatorView>,
    last: nat,
    floor: nat,
    left: Tree,
    callable: bool,
)
    requires
        last + 1 >= toks.len(),
    ensures
        parse_tail(toks, ops, last, floor, left, callable) == done(0, left),
{
}

/// An expression does not take in an infix operator that binds no tighter
/// than the floor.
pub proof fn lemma_tail_stops_at_looser(
    toks: Seq<TokenView>,
    ops: Seq<OperatorView>,
    last: nat,
    floor: nat,
    left: Tree,
    callable: bool,
    op: OperatorView,
)
    requires
        last + 1 < toks.len(),
        infix_token(ops, toks[(last + 1) as int], op),
        op.precedence.rank() <= floor,
    ensures
        parse_tail(toks, ops, last, floor, left, callable) == done(0, left),
{
}

/// An expression takes in an infix operator that binds tighter than the
/// floor, with the expression behind it as its right operand, and goes on
/// from there.
pub proof fn lemma_tail_takes_tighter(
    toks: Seq<TokenView>,
    ops: Seq<OperatorView>,
    last: nat,
    floor: nat,
    left: Tree,
    callable: bool,
    op: OperatorView,
    moved: nat,
    right: Tree,
)
    requires
        last + 1 < toks.len(),
        infix_token(ops, toks[(last + 1) as int], op),
        floor < op.precedence.rank(),
        parse_expression(toks, ops, last + 2, op.precedence.rank()) == done(moved, right),
    ensures
        parse_tail(toks, ops, last, floor, left, callable) == after(
            2 + moved,
            parse_tail(toks, ops, last + 2 + moved, floor, infix(left, op, right), false),
        ),
{
    assert(infix_expression(toks, ops, last + 1, left) == done(
        1 + moved,
        infix(left, op, right),
    ));
}

/// An operand that an operator follows which binds no tighter than the
/// floor, or that nothing follows, is an expression by itself.
pub proof fn lemma_operand_alone(
    toks: Seq<TokenView>,
    ops: Seq<OperatorView>,
    pos: nat,
    floor: nat,
    tree: Tree,
)
    requires
        pos < toks.len(),
        operand(ops, toks[pos as int]) == Some(tree),
        pos + 1 < toks.len() ==> exists|op: OperatorView|
            infix_token(ops, toks[(pos + 1) as int], op) && op.precedence.rank() <= floor,
    ensures
        parse_expression(toks, ops, pos, floor) == done(0, tree),
{
    lemma_operand_head(toks, ops, pos, tree);
    let callable = callable_at(toks, ops, pos);
    if pos + 1 < toks.len() {
        let op = choose|op: OperatorView|
            infix_token(ops, toks[(pos + 1) as int], op) && op.precedence.rank() <= floor;
        lemma_tail_stops_at_looser(toks, ops, pos, floor, tree, callable, op);
    } else {
        lemma_tail_at_end(toks, ops, pos, floor, tree, callable);
    }
}

/// Of two infix operators in a row, the second takes the operand between
/// them where it binds tighter than the first: `a + b * c` is
/// `a + (b * c)`.
pub proof fn lemma_tighter_operator_binds_first(
    toks: Seq<TokenView>,
    ops: Seq<OperatorView>,
    a: Tree,
    first: OperatorView,
    b: Tree,
    second: OperatorView,
    c: Tree,
)
    requires
        toks.len() == 5,
        operand(ops, toks[0]) == Some(a),
        infix_token(ops, toks[1], first),
        operand(ops, toks[2]) == Some(b),
        infix_token(ops, toks[3], second),
        operand(ops, toks[4]) == Some(c),
        0 < first.precedence.rank() < second.precedence.rank(),
    ensures
        parse_expression(toks, ops, 0, 0) == done(4, infix(a, first, infix(b, second, c))),
{
    let low = first.precedence.rank();
    let high = second.precedence.rank();
    // c, behind the tighter operator
    lemma_operand_alone(toks, ops, 4, high, c);
    // b * c, behind the looser operator
    lemma_operand_head(toks, ops, 2, b);
    lemma_tail_takes_tighter(toks, ops, 2, low, b, callable_at(toks, ops, 2), second, 0, c);
    lemma_tail_at_end(toks, ops, 4, low, infix(b, second, c), false);
    // a + (b * c)
    lemma_operand_head(toks, ops, 0, a);
    lemma_tail_takes_tighter(
        toks,
        ops,
        0,
        0,
        a,
        callable_at(toks, ops, 0),
        first,
        2,
        infix(b, second, c),
    );
    lemma_tail_at_end(toks, ops, 4, 0, infix(a, first, infix(b, second, c)), false);
}

/// Of two infix operators in a row, the first takes the operand between
/// them where the second binds no tighter: `a * b + c` is `(a * b) + c`,
/// and so is `a + b + c`.
pub proof fn lemma_operators_group_to_the_left(
    toks: Seq<TokenView>,
    ops: Seq<OperatorView>,
    a: Tree,
    first: OperatorView,
    b: Tree,
    second: OperatorView,
    c: Tree,
)
    requires
        toks.len() == 5,
        operand(ops, toks[0]) == Some(a),
        infix_token(ops, toks[1], first),
        operand(ops, toks[2]) == Some(b),
        infix_token(ops, toks[3], second),
        operand(ops, toks[4]) == Some(c),
        0 < second.precedence.rank() <= first.precedence.rank(),
    ensures
        parse_expression(toks, ops, 0, 0) == done(4, infix(infix(a, first, b), second, c)),
{
    let one = first.precedence.rank();
    let two = second.precedence.rank();
    // b, which the second operator does not reach into
    lemma_operand_alone(toks, ops, 2, one, b);
    // c
    lemma_operand_alone(toks, ops, 4, two, c);
    lemma_operand_head(toks, ops, 0, a);
    lemma_tail_takes_tighter(toks, ops, 0, 0, a, callable_at(toks, ops, 0), first, 0, b);
    lemma_tail_takes_tighter(toks, ops, 2, 0, infix(a, first, b), false, second, 0, c);
    lemma_tail_at_end(toks, ops, 4, 0, infix(infix(a, first, b), second, c), false);
}

/// A group is an operand whatever the precedences: `(a + b) * c` is the
/// product of the sum and `c`, and so is `(a * b) + c` the sum of the
/// product and `c`.
pub proof fn lemma_grouping_overrides_precedence(
    toks: Seq<TokenView>,
    ops: Seq<OperatorView>,
    a: Tree,
    inner: OperatorView,
    b: Tree,
    outer: OperatorView,
    c: Tree,
)
    requires
        toks.len() == 7,
        toks[0].kind == TokenKind::LParen,
        operand(ops, toks[1]) == Some(a),
        infix_token(ops, toks[2], inner),
        operand(ops, toks[3]) == Some(b),
        toks[4].kind == TokenKind::RParen,
        infix_token(ops, toks[5], outer),
        operand(ops, toks[6]) == Some(c),
        0 < inner.precedence.rank(),
        0 < outer.precedence.rank(),
    ensures
        parse_expression(toks, ops, 0, 0) == done(6, infix(infix(a, inner, b), outer, c)),
{
    let sum = infix(a, inner, b);
    // b, up to the closing parenthesis
    lemma_operand_head(toks, ops, 3, b);
    assert(parse_tail(toks, ops, 3, inner.precedence.rank(), b, callable_at(toks, ops, 3))
        == done(0, b));
    // a + b, inside the group
    lemma_operand_head(toks, ops, 1, a);
    lemma_tail_takes_tighter(toks, ops, 1, 0, a, callable_at(toks, ops, 1), inner, 0, b);
    assert(parse_tail(toks, ops, 3, 0, sum, false) == done(0, sum));
    // the group
    assert(parse_head(toks, ops, 0) == done(4, sum));
    // c
    lemma_operand_alone(toks, ops, 6, outer.precedence.rank(), c);
    lemma_tail_takes_tighter(toks, ops, 4, 0, sum, false, outer, 0, c);
    lemma_tail_at_end(toks, ops, 6, 0, infix(sum, outer, c), false);
}

} // verus!
