use rough::error::RoughError;
use rough::lexer::{is_letter, is_op_char, len_utf8};
use rough::operator::{
    reserved_precedences, same_text, OperatorDefinition, OperatorTable, OperatorType, Precedence,
};
use rough::token::TokenType;

fn op(identifier: &str, op_type: OperatorType, precedence: Precedence) -> OperatorDefinition {
    OperatorDefinition { identifier: identifier.to_string(), op_type, precedence }
}

const LEVELS: [Precedence; 10] = [
    Precedence::First,
    Precedence::Second,
    Precedence::Third,
    Precedence::Fourth,
    Precedence::Fifth,
    Precedence::Sixth,
    Precedence::Seventh,
    Precedence::Eighth,
    Precedence::Ninth,
    Precedence::Tenth,
];

#[test]
fn precedence_levels_are_in_order() {
    for (i, a) in LEVELS.iter().enumerate() {
        assert_eq!(a.level() as usize, i);
        for (j, b) in LEVELS.iter().enumerate() {
            assert_eq!(a < b, i < j);
            assert_eq!(a <= b, i <= j);
            assert_eq!(a > b, i > j);
            assert_eq!(a == b, i == j);
        }
    }
}

#[test]
fn no_token_has_a_reserved_precedence() {
    assert_eq!(reserved_precedences(&TokenType::If), None);
    assert_eq!(reserved_precedences(&TokenType::Operator("+".to_string())), None);
}

#[test]
fn lookup_goes_by_identifier_and_type() {
    let table = OperatorTable::new(vec![
        op("-", OperatorType::Prefix, Precedence::Ninth),
        op("-", OperatorType::Infix, Precedence::Third),
        op("not", OperatorType::Prefix, Precedence::Second),
    ])
    .unwrap();
    assert_eq!(
        table.lookup("-", OperatorType::Infix),
        Some(&op("-", OperatorType::Infix, Precedence::Third))
    );
    assert_eq!(
        table.lookup("-", OperatorType::Prefix),
        Some(&op("-", OperatorType::Prefix, Precedence::Ninth))
    );
    assert_eq!(table.lookup("-", OperatorType::Postfix), None);
    assert_eq!(table.lookup("not", OperatorType::Infix), None);
    assert_eq!(table.lookup("no", OperatorType::Prefix), None);
    assert_eq!(table.lookup("", OperatorType::Prefix), None);
    assert_eq!(table.definitions().len(), 3);
}

#[test]
fn empty_table() {
    let table = OperatorTable::new(vec![]).unwrap();
    assert_eq!(table.lookup("+", OperatorType::Infix), None);
}

#[test]
fn colliding_definitions_make_no_table() {
    let errors = OperatorTable::new(vec![
        op("+", OperatorType::Infix, Precedence::Third),
        op("*", OperatorType::Infix, Precedence::Fifth),
        op("+", OperatorType::Infix, Precedence::Fourth),
        op("+", OperatorType::Prefix, Precedence::Fourth),
        op("*", OperatorType::Infix, Precedence::Fifth),
        op("+", OperatorType::Infix, Precedence::Third),
        op("neg", OperatorType::Postfix, Precedence::Third),
        op("neg", OperatorType::Postfix, Precedence::Third),
    ])
    .err()
    .unwrap();
    let messages: Vec<&str> = errors.iter().map(|e| e.message().as_str()).collect();
    assert_eq!(
        messages,
        vec![
            "duplicate infix operator `+`",
            "duplicate infix operator `*`",
            "duplicate infix operator `+`",
            "duplicate postfix operator `neg`",
        ]
    );
    assert!(errors.iter().all(|e| e.offset().is_none()));
    let errors = OperatorTable::new(vec![
        op("-", OperatorType::Prefix, Precedence::Third),
        op("-", OperatorType::Prefix, Precedence::Third),
    ])
    .err()
    .unwrap();
    assert_eq!(errors[0].message(), "duplicate prefix operator `-`");
}

#[test]
fn definitions_are_equal_by_their_parts() {
    let plus = op("+", OperatorType::Infix, Precedence::Third);
    assert_eq!(plus.clone(), plus);
    assert_ne!(plus, op("+", OperatorType::Infix, Precedence::Fourth));
    assert_ne!(plus, op("+", OperatorType::Prefix, Precedence::Third));
    assert_ne!(plus, op("-", OperatorType::Infix, Precedence::Third));
}

#[test]
fn texts_are_compared_by_their_characters() {
    assert!(same_text("", ""));
    assert!(same_text("é+", "é+"));
    assert!(!same_text("ab", "ac"));
    assert!(!same_text("ab", "abc"));
    assert!(!same_text("é", "e"));
}

#[test]
fn errors_carry_message_and_offset() {
    let plain = RoughError::new("broken".to_string());
    assert_eq!(plain.message(), "broken");
    assert_eq!(plain.offset(), None);
    let placed = RoughError::at("broken".to_string(), 7);
    assert_eq!(placed.message(), "broken");
    assert_eq!(placed.offset(), Some(7));
    assert_ne!(plain, placed);
    assert_eq!(placed.clone(), placed);
    assert_ne!(placed, RoughError::at("broken".to_string(), 8));
    assert_ne!(placed, RoughError::at("other".to_string(), 7));
}

#[test]
fn character_classes() {
    for c in "abzAMZ_".chars() {
        assert!(is_letter(c));
    }
    for c in "09 +é[`{".chars() {
        assert!(!is_letter(c));
    }
    for c in "!$%&*+./<=>?@\\^-~{}".chars() {
        assert!(is_op_char(c));
    }
    for c in "()[],|#:;'\"_a0 \n".chars() {
        assert!(!is_op_char(c));
    }
}

#[test]
fn widths_are_those_of_utf8() {
    for c in ['\0', 'a', '\u{7f}', '\u{80}', 'é', '\u{7ff}', '\u{800}', '€', '\u{ffff}', '\u{10000}', '😀', '\u{10ffff}'] {
        assert_eq!(len_utf8(c), c.len_utf8());
    }
}
