//! The expression tree that parsing produces.

use vstd::prelude::*;
use crate::operator::{OperatorDefinition, OperatorView};

verus! {

/// What an [`Expression`] stands for: the same tree over sequences of
/// characters.
pub enum Tree {
    Ident(Seq<char>),
    Number(Seq<char>),
    Str(Seq<char>),
    Function(Seq<Seq<char>>, Box<Tree>),
    Call(Box<Tree>, Seq<Tree>),
    Prefix(OperatorView, Box<Tree>),
    Infix(Box<Tree>, OperatorView, Box<Tree>),
    Postfix(Box<Tree>, OperatorView),
    IndexMap(Seq<Tree>),
    If(Box<Tree>, Box<Tree>, Option<Box<Tree>>),
}

/// An expression. Every part of it belongs to the expression alone.
#[derive(Debug, PartialEq)]
pub enum Expression {
    /// A reference to a name.
    Ident(String),
    /// A number, as the digits it was written with.
    Number(String),
    /// A string literal.
    Str(String),
    /// A function: the names of its parameters, and its body.
    Function(Vec<String>, Box<Expression>),
    /// A call: what is called, and the arguments in order.
    Call(Box<Expression>, Vec<Expression>),
    /// A prefix operator applied to its operand.
    Prefix(OperatorDefinition, Box<Expression>),
    /// An infix operator between its left and right operands.
    Infix(Box<Expression>, OperatorDefinition, Box<Expression>),
    /// A postfix operator applied to its operand.
    Postfix(Box<Expression>, OperatorDefinition),
    /// A list of elements in brackets.
    IndexMap(Vec<Expression>),
    /// A conditional: the condition, the consequent, and the alternative if
    /// there is one.
    If(Box<Expression>, Box<Expression>, Option<Box<Expression>>),
}

/// The texts that a list of strings stands for, in order.
pub open spec fn texts(names: Seq<String>) -> Seq<Seq<char>> {
    names.map_values(|name: String| name@)
}

/// The trees that a list of expressions stands for, in order.
pub open spec fn trees(expressions: Seq<Expression>) -> Seq<Tree>
    decreases expressions,
{
    if expressions.len() == 0 {
        Seq::empty()
    } else {
        trees(expressions.drop_last()).push(tree(expressions.last()))
    }
}

/// The tree that an expression stands for.
pub open spec fn tree(expression: Expression) -> Tree
    decreases expression,
{
    match expression {
        Expression::Ident(name) => Tree::Ident(name@),
        Expression::Number(digits) => Tree::Number(digits@),
        Expression::Str(text) => Tree::Str(text@),
        Expression::Function(parameters, body) => Tree::Function(
            texts(parameters@),
            Box::new(tree(*body)),
        ),
        Expression::Call(callee, arguments) => Tree::Call(
            Box::new(tree(*callee)),
            trees(arguments@),
        ),
        Expression::Prefix(operator, operand) => Tree::Prefix(operator@, Box::new(tree(*operand))),
        Expression::Infix(left, operator, right) => Tree::Infix(
            Box::new(tree(*left)),
            operator@,
            Box::new(tree(*right)),
        ),
        Expression::Postfix(operand, operator) => Tree::Postfix(
            Box::new(tree(*operand)),
            operator@,
        ),
        Expression::IndexMap(elements) => Tree::IndexMap(trees(elements@)),
        Expression::If(condition, consequent, alternative) => Tree::If(
            Box::new(tree(*condition)),
            Box::new(tree(*consequent)),
            match alternative {
                Some(otherwise) => Some(Box::new(tree(*otherwise))),
                None => None,
            },
        ),
    }
}

impl View for Expression {
    type V = Tree;

    open spec fn view(&self) -> Tree {
        tree(*self)
    }
}

/// The trees of no expressions are no trees.
pub proof fn lemma_trees_empty()
    ensures
        trees(Seq::<Expression>::empty()) == Seq::<Tree>::empty(),
{
}

/// The trees of a list with one more expression are the trees of the list
/// with the tree of that expression.
pub proof fn lemma_trees_push(expressions: Seq<Expression>, last: Expression)
    ensures
        trees(expressions.push(last)) == trees(expressions).push(last@),
{
    assert(expressions.push(last).drop_last() =~= expressions);
}

} // verus!
