use rough::ast::Expression;
use rough::lexer::Lexer;
use rough::operator::{OperatorDefinition, OperatorTable, OperatorType, Precedence};
use rough::parser::{ParseFailure, Parser};

fn op(identifier: &str, op_type: OperatorType, precedence: Precedence) -> OperatorDefinition {
    OperatorDefinition { identifier: identifier.to_string(), op_type, precedence }
}

fn arithmetic() -> OperatorTable {
    OperatorTable::new(vec![
        op("+", OperatorType::Infix, Precedence::Third),
        op("*", OperatorType::Infix, Precedence::Fifth),
    ])
    .unwrap()
}

fn parse(source: &str, table: OperatorTable) -> Result<Expression, ParseFailure> {
    let mut parser = Parser::new(Lexer::new(source), table);
    parser.parse_program()
}

fn ident(name: &str) -> Expression {
    Expression::Ident(name.to_string())
}

fn number(digits: &str) -> Expression {
    Expression::Number(digits.to_string())
}

fn infix(left: Expression, operator: OperatorDefinition, right: Expression) -> Expression {
    Expression::Infix(Box::new(left), operator, Box::new(right))
}

fn plus() -> OperatorDefinition {
    op("+", OperatorType::Infix, Precedence::Third)
}

fn times() -> OperatorDefinition {
    op("*", OperatorType::Infix, Precedence::Fifth)
}

#[test]
fn tighter_operator_binds_first() {
    let parsed = parse("a + b * c", arithmetic()).unwrap();
    assert_eq!(parsed, infix(ident("a"), plus(), infix(ident("b"), times(), ident("c"))));
}

#[test]
fn tighter_operator_on_the_left() {
    let parsed = parse("a * b + c", arithmetic()).unwrap();
    assert_eq!(parsed, infix(infix(ident("a"), times(), ident("b")), plus(), ident("c")));
}

#[test]
fn grouping_overrides_precedence() {
    let parsed = parse("(a + b) * c", arithmetic()).unwrap();
    assert_eq!(parsed, infix(infix(ident("a"), plus(), ident("b")), times(), ident("c")));
}

#[test]
fn equal_precedence_groups_to_the_left() {
    let parsed = parse("a + b + c", arithmetic()).unwrap();
    assert_eq!(parsed, infix(infix(ident("a"), plus(), ident("b")), plus(), ident("c")));
}

#[test]
fn unterminated_string_is_one_diagnostic() {
    let mut lexer = Lexer::new("\"abc");
    let tokens = lexer.collect();
    assert!(tokens.is_empty());
    assert_eq!(lexer.errors().len(), 1);
    assert_eq!(lexer.errors()[0].message(), "unterminated string");
    assert_eq!(lexer.errors()[0].offset(), Some(0));

    let failure = parse("\"abc", arithmetic()).unwrap_err();
    let mentioning: Vec<_> =
        failure.diagnostics.iter().filter(|e| e.message().contains("unterminated")).collect();
    assert_eq!(mentioning.len(), 1);
    assert_eq!(failure.diagnostics[0].message(), "unterminated string");
    assert!(failure.partial.is_none());
}

#[test]
fn tokens_before_an_unterminated_string_are_kept() {
    let failure = parse("a + \"abc", arithmetic()).unwrap_err();
    assert_eq!(failure.diagnostics.len(), 2);
    assert_eq!(failure.diagnostics[0].message(), "unterminated string");
    assert_eq!(failure.diagnostics[0].offset(), Some(4));
    assert_eq!(failure.diagnostics[1].message(), "premature end of input");
    assert_eq!(failure.partial, Some(ident("a")));
}

#[test]
fn empty_input_has_no_expression() {
    let mut lexer = Lexer::new("");
    assert!(lexer.collect().is_empty());
    assert!(lexer.errors().is_empty());

    let failure = parse("", arithmetic()).unwrap_err();
    assert_eq!(failure.diagnostics.len(), 1);
    assert_eq!(failure.diagnostics[0].message(), "premature end of input");
    assert_eq!(failure.diagnostics[0].offset(), None);
    assert!(failure.partial.is_none());
}

#[test]
fn unknown_character_in_a_group() {
    let failure = parse("(§)", arithmetic()).unwrap_err();
    assert_eq!(failure.diagnostics.len(), 2);
    assert_eq!(failure.diagnostics[0].message(), "unrecognized character `§` at offset 1");
    assert_eq!(failure.diagnostics[1].message(), "no expression can start with token `)`");
    assert_eq!(failure.diagnostics[1].offset(), Some(3));
}

#[test]
fn literals() {
    assert_eq!(parse("53", arithmetic()).unwrap(), number("53"));
    assert_eq!(parse("\"bar\"", arithmetic()).unwrap(), Expression::Str("bar".to_string()));
    assert_eq!(parse("foo", arithmetic()).unwrap(), ident("foo"));
}

#[test]
fn comments_and_white_space_are_passed_over() {
    let parsed = parse("a # the first *#\n    + b", arithmetic()).unwrap();
    assert_eq!(parsed, infix(ident("a"), plus(), ident("b")));
}

#[test]
fn function_literal() {
    let parsed = parse("|x, y| x + y", arithmetic()).unwrap();
    assert_eq!(
        parsed,
        Expression::Function(
            vec!["x".to_string(), "y".to_string()],
            Box::new(infix(ident("x"), plus(), ident("y"))),
        )
    );
}

#[test]
fn function_literal_needs_a_parameter() {
    let failure = parse("|| x", arithmetic()).unwrap_err();
    assert_eq!(failure.diagnostics.len(), 1);
    assert_eq!(failure.diagnostics[0].message(), "expected a parameter name but found `|`");
    assert!(failure.partial.is_none());
}

#[test]
fn function_literal_needs_its_closing_pipe() {
    let failure = parse("|x y", arithmetic()).unwrap_err();
    assert_eq!(failure.diagnostics.len(), 1);
    assert_eq!(failure.diagnostics[0].message(), "expected `|` but found `y`");
    assert_eq!(failure.diagnostics[0].offset(), Some(3));
}

#[test]
fn call_by_juxtaposition() {
    let parsed = parse("f x 1", arithmetic()).unwrap();
    assert_eq!(parsed, Expression::Call(Box::new(ident("f")), vec![ident("x"), number("1")]));
}

#[test]
fn call_binds_tighter_than_operators() {
    let parsed = parse("a + f x * c", arithmetic()).unwrap();
    assert_eq!(
        parsed,
        infix(
            ident("a"),
            plus(),
            infix(Expression::Call(Box::new(ident("f")), vec![ident("x")]), times(), ident("c")),
        )
    );
}

#[test]
fn a_group_is_not_called() {
    let mut parser = Parser::new(Lexer::new("(f) x"), arithmetic());
    assert_eq!(parser.parse_program().unwrap(), ident("f"));
    assert_eq!(parser.current_result().unwrap().position(), 2);
}

#[test]
fn conditional_with_alternative() {
    let parsed = parse("if 1 a else b", arithmetic()).unwrap();
    assert_eq!(
        parsed,
        Expression::If(Box::new(number("1")), Box::new(ident("a")), Some(Box::new(ident("b"))))
    );
}

#[test]
fn conditional_without_alternative() {
    let parsed = parse("if (c) a + b", arithmetic()).unwrap();
    assert_eq!(
        parsed,
        Expression::If(
            Box::new(ident("c")),
            Box::new(infix(ident("a"), plus(), ident("b"))),
            None
        )
    );
}

#[test]
fn conditional_with_a_failing_alternative() {
    let failure = parse("if 1 2 else", arithmetic()).unwrap_err();
    assert_eq!(failure.diagnostics.len(), 1);
    assert_eq!(failure.diagnostics[0].message(), "premature end of input");
    assert_eq!(
        failure.partial,
        Some(Expression::If(Box::new(number("1")), Box::new(number("2")), None))
    );
}

#[test]
fn empty_list() {
    assert_eq!(parse("[]", arithmetic()).unwrap(), Expression::IndexMap(vec![]));
}

#[test]
fn list_of_expressions() {
    let parsed = parse("[a, 1 + 2, \"s\"]", arithmetic()).unwrap();
    assert_eq!(
        parsed,
        Expression::IndexMap(vec![
            ident("a"),
            infix(number("1"), plus(), number("2")),
            Expression::Str("s".to_string()),
        ])
    );
}

#[test]
fn list_without_its_closing_bracket() {
    let failure = parse("[a, b", arithmetic()).unwrap_err();
    assert_eq!(failure.diagnostics.len(), 1);
    assert_eq!(failure.diagnostics[0].message(), "expected `]` but the input ended");
    assert_eq!(failure.diagnostics[0].offset(), None);
    assert_eq!(failure.partial, Some(Expression::IndexMap(vec![ident("a"), ident("b")])));
}

#[test]
fn group_without_its_closing_parenthesis() {
    let failure = parse("(a + b ]", arithmetic()).unwrap_err();
    assert_eq!(failure.diagnostics.len(), 1);
    assert_eq!(failure.diagnostics[0].message(), "expected `)` but found `]`");
    assert_eq!(failure.diagnostics[0].offset(), Some(7));
    assert_eq!(failure.partial, Some(infix(ident("a"), plus(), ident("b"))));
}

#[test]
fn missing_right_operand_leaves_the_left() {
    let failure = parse("a + b *", arithmetic()).unwrap_err();
    assert_eq!(failure.diagnostics.len(), 1);
    assert_eq!(failure.diagnostics[0].message(), "premature end of input");
    assert_eq!(failure.partial, Some(ident("a")));
}

#[test]
fn no_expression_starts_with_a_closing_token() {
    let failure = parse(", a", arithmetic()).unwrap_err();
    assert_eq!(failure.diagnostics.len(), 1);
    assert_eq!(failure.diagnostics[0].message(), "no expression can start with token `,`");
    assert_eq!(failure.diagnostics[0].offset(), Some(0));
    assert!(failure.partial.is_none());
}

#[test]
fn same_symbol_as_prefix_and_infix() {
    let minus_prefix = op("-", OperatorType::Prefix, Precedence::Ninth);
    let minus_infix = op("-", OperatorType::Infix, Precedence::Third);
    let table = OperatorTable::new(vec![minus_prefix.clone(), minus_infix.clone()]).unwrap();
    let parsed = parse("- a - b", table).unwrap();
    assert_eq!(
        parsed,
        infix(
            Expression::Prefix(minus_prefix, Box::new(ident("a"))),
            minus_infix,
            ident("b")
        )
    );
}

#[test]
fn prefix_operator_takes_what_binds_tighter() {
    let not = op("not", OperatorType::Prefix, Precedence::Second);
    let table = OperatorTable::new(vec![not.clone(), plus()]).unwrap();
    let parsed = parse("not a + b", table).unwrap();
    assert_eq!(parsed, Expression::Prefix(not, Box::new(infix(ident("a"), plus(), ident("b")))));
}

#[test]
fn postfix_operator() {
    let bang = op("!", OperatorType::Postfix, Precedence::Seventh);
    let table = OperatorTable::new(vec![bang.clone(), plus()]).unwrap();
    let parsed = parse("a + b !", table).unwrap();
    assert_eq!(
        parsed,
        infix(ident("a"), plus(), Expression::Postfix(Box::new(ident("b")), bang))
    );
}

#[test]
fn operator_symbol_without_a_prefix_definition() {
    let failure = parse("+ a", arithmetic()).unwrap_err();
    assert_eq!(failure.diagnostics.len(), 1);
    assert_eq!(failure.diagnostics[0].message(), "`+` is not defined as a prefix operator");
    assert_eq!(failure.diagnostics[0].offset(), Some(0));
}

#[test]
fn undeclared_operator_ends_the_expression() {
    let mut parser = Parser::new(Lexer::new("a - b"), arithmetic());
    assert_eq!(parser.parse_program().unwrap(), ident("a"));
    assert!(parser.get_errors().is_empty());
}

#[test]
fn operator_of_the_lowest_level_is_never_taken_in() {
    let table = OperatorTable::new(vec![op("or", OperatorType::Infix, Precedence::First)]).unwrap();
    let mut parser = Parser::new(Lexer::new("1 or 2"), table);
    assert_eq!(parser.parse_program().unwrap(), number("1"));
}

#[test]
fn tokenizer_diagnostics_come_with_the_tree() {
    let failure = parse("a § + b", arithmetic()).unwrap_err();
    assert_eq!(failure.diagnostics.len(), 1);
    assert_eq!(failure.diagnostics[0].message(), "unrecognized character `§` at offset 2");
    assert_eq!(failure.partial, Some(infix(ident("a"), plus(), ident("b"))));
}

#[test]
fn cursor_moves_over_the_tokens_that_count() {
    let mut parser = Parser::new(Lexer::new("a  b"), arithmetic());
    assert_eq!(parser.current_result().unwrap().position(), 0);
    parser.next();
    assert_eq!(parser.current_result().unwrap().position(), 3);
    parser.next();
    let errors = parser.current_result().unwrap_err();
    assert_eq!(errors.len(), 1);
    assert_eq!(errors[0].message(), "premature end of input");
    parser.next();
    assert!(parser.current_result().is_err());
}

#[test]
fn parse_reads_source_text() {
    let parsed = rough::parser::parse("a + b * c", arithmetic()).unwrap();
    assert_eq!(parsed, infix(ident("a"), plus(), infix(ident("b"), times(), ident("c"))));
    let failure = rough::parser::parse("[1, §", arithmetic()).unwrap_err();
    assert_eq!(failure.diagnostics.len(), 2);
    assert_eq!(failure.diagnostics[0].message(), "unrecognized character `§` at offset 4");
    assert_eq!(failure.diagnostics[1].message(), "premature end of input");
    assert_eq!(failure.partial, Some(Expression::IndexMap(vec![number("1")])));
}

#[test]
fn diagnostics_stay_with_the_parser() {
    let mut parser = Parser::new(Lexer::new("§ ( a"), arithmetic());
    assert_eq!(parser.get_errors().len(), 1);
    let failure = parser.parse_program().unwrap_err();
    assert_eq!(failure.partial, Some(ident("a")));
    let errors = parser.get_errors();
    assert_eq!(errors, failure.diagnostics);
    assert_eq!(errors.len(), 2);
    assert_eq!(errors[0].message(), "unrecognized character `§` at offset 0");
    assert_eq!(errors[1].message(), "expected `)` but the input ended");
}

#[test]
fn prefix_operator_begins_an_argument() {
    let table = OperatorTable::new(vec![op("-", OperatorType::Prefix, Precedence::Ninth)]).unwrap();
    let mut parser = Parser::new(Lexer::new("a - b"), table);
    assert_eq!(
        parser.parse_program().unwrap(),
        Expression::Call(
            Box::new(ident("a")),
            vec![Expression::Prefix(
                op("-", OperatorType::Prefix, Precedence::Ninth),
                Box::new(ident("b"))
            )]
        )
    );
}
