//! Operators: the caller declares which identifiers are operators, whether
//! each is written before, between or after its operands, and how tightly it
//! binds.

use vstd::prelude::*;
use vstd::std_specs::cmp::PartialEqSpecImpl;
use vstd::std_specs::cmp::PartialOrdSpecImpl;
use vstd::string::StringSliceAdditionalSpecFns;
use vstd::utf8::encode_utf8_decode_utf8;
use std::cmp::Ordering;
use crate::error::{diagnostics, Diagnostic, RoughError, RoughResult};
use crate::token::{TokenKind, TokenType};

verus! {

/// How tightly an operator binds: a later level binds tighter than an
/// earlier one.
#[derive(Debug, PartialEq, Eq, Structural, Clone, Copy)]
pub enum Precedence {
    First,
    Second,
    Third,
    Fourth,
    Fifth,
    Sixth,
    Seventh,
    Eighth,
    Ninth,
    Tenth,
}

impl Precedence {
    /// The place of the level in the order, counted from zero.
    pub open spec fn rank(self) -> nat {
        match self {
            Precedence::First => 0,
            Precedence::Second => 1,
            Precedence::Third => 2,
            Precedence::Fourth => 3,
            Precedence::Fifth => 4,
            Precedence::Sixth => 5,
            Precedence::Seventh => 6,
            Precedence::Eighth => 7,
            Precedence::Ninth => 8,
            Precedence::Tenth => 9,
        }
    }

    /// The place of the level in the order, counted from zero.
    pub fn level(&self) -> (r: u8)
        ensures
            r == self.rank(),
    {
        match self {
            Precedence::First => 0,
            Precedence::Second => 1,
            Precedence::Third => 2,
            Precedence::Fourth => 3,
            Precedence::Fifth => 4,
            Precedence::Sixth => 5,
            Precedence::Seventh => 6,
            Precedence::Eighth => 7,
            Precedence::Ninth => 8,
            Precedence::Tenth => 9,
        }
    }
}

impl PartialOrd for Precedence {
    fn partial_cmp(&self, other: &Precedence) -> (r: Option<Ordering>) {
        let mine: u8 = self.level();
        let theirs: u8 = other.level();
        if mine < theirs {
            Some(Ordering::Less)
        } else if mine == theirs {
            Some(Ordering::Equal)
        } else {
            Some(Ordering::Greater)
        }
    }
}

impl PartialOrdSpecImpl for Precedence {
    open spec fn obeys_partial_cmp_spec() -> bool {
        true
    }

    open spec fn partial_cmp_spec(&self, other: &Precedence) -> Option<Ordering> {
        if self.rank() < other.rank() {
            Some(Ordering::Less)
        } else if self.rank() == other.rank() {
            Some(Ordering::Equal)
        } else {
            Some(Ordering::Greater)
        }
    }
}

/// The levels stand in one line: of two levels one is below the other, or
/// they are the same level.
pub proof fn lemma_precedence_total(a: Precedence, b: Precedence)
    ensures
        a.rank() < b.rank() || a == b || b.rank() < a.rank(),
        a.rank() == b.rank() ==> a == b,
        a.rank() <= Precedence::Tenth.rank(),
        Precedence::First.rank() <= a.rank(),
{
}

/// The precedence that the language itself gives to a kind of token. No
/// kind has one.
pub open spec fn reserved_precedence(kind: TokenKind) -> Option<Precedence> {
    None
}

/// The precedence that the language itself gives to a token, whatever the
/// caller declares.
pub fn reserved_precedences(token: &TokenType) -> (r: Option<Precedence>)
    ensures
        r == reserved_precedence(token@),
{
    None
}

/// Where an operator is written: before its operand, between its two
/// operands, or after its operand.
#[derive(Debug, PartialEq, Eq, Structural, Clone, Copy)]
pub enum OperatorType {
    Prefix,
    Infix,
    Postfix,
}

/// What an [`OperatorDefinition`] stands for.
pub struct OperatorView {
    pub identifier: Seq<char>,
    pub op_type: OperatorType,
    pub precedence: Precedence,
}

/// The declaration of one operator.
#[derive(Debug)]
pub struct OperatorDefinition {
    pub identifier: String,
    pub op_type: OperatorType,
    pub precedence: Precedence,
}

impl View for OperatorDefinition {
    type V = OperatorView;

    open spec fn view(&self) -> OperatorView {
        OperatorView {
            identifier: self.identifier@,
            op_type: self.op_type,
            precedence: self.precedence,
        }
    }
}

impl Clone for OperatorDefinition {
    fn clone(&self) -> (r: OperatorDefinition)
        ensures
            r@ == self@,
    {
        OperatorDefinition {
            identifier: self.identifier.clone(),
            op_type: self.op_type,
            precedence: self.precedence,
        }
    }
}

impl PartialEq for OperatorDefinition {
    fn eq(&self, other: &OperatorDefinition) -> (r: bool) {
        self.identifier == other.identifier && self.op_type == other.op_type && self.precedence
            == other.precedence
    }
}

impl PartialEqSpecImpl for OperatorDefinition {
    open spec fn obeys_eq_spec() -> bool {
        true
    }

    open spec fn eq_spec(&self, other: &OperatorDefinition) -> bool {
        self@ == other@
    }
}

/// What a list of definitions stands for, in order.
pub open spec fn operator_views(definitions: Seq<OperatorDefinition>) -> Seq<OperatorView> {
    definitions.map_values(|d: OperatorDefinition| d@)
}

/// The definition is the one for `identifier` written as `op_type`.
pub open spec fn defines(op: OperatorView, identifier: Seq<char>, op_type: OperatorType) -> bool {
    op.identifier == identifier && op.op_type == op_type
}

/// No two of the definitions are for the same identifier written the same
/// way.
pub open spec fn distinct(ops: Seq<OperatorView>) -> bool {
    forall|i: int, j: int|
        0 <= i < j < ops.len() ==> !defines(
            #[trigger] ops[j],
            (#[trigger] ops[i]).identifier,
            ops[i].op_type,
        )
}

/// The definition at `at` is for an identifier and a way of writing it that
/// an earlier definition is for already.
pub open spec fn repeats(ops: Seq<OperatorView>, at: int) -> bool {
    exists|i: int| 0 <= i < at && defines(ops[at], (#[trigger] ops[i]).identifier, ops[i].op_type)
}

/// How an operator type is named in messages.
pub open spec fn fixity_name(op_type: OperatorType) -> Seq<char> {
    match op_type {
        OperatorType::Prefix => "prefix"@,
        OperatorType::Infix => "infix"@,
        OperatorType::Postfix => "postfix"@,
    }
}

/// The diagnostic for a definition that repeats an earlier one.
pub open spec fn duplicate_definition(op: OperatorView) -> Diagnostic {
    Diagnostic {
        message: "duplicate "@ + fixity_name(op.op_type) + " operator `"@ + op.identifier + "`"@,
        offset: None,
    }
}

/// The diagnostics for the first `upto` definitions: one for each that
/// repeats an earlier one, in order.
pub open spec fn collisions(ops: Seq<OperatorView>, upto: int) -> Seq<Diagnostic>
    decreases upto,
{
    if upto <= 0 {
        Seq::empty()
    } else if repeats(ops, upto - 1) {
        collisions(ops, upto - 1).push(duplicate_definition(ops[upto - 1]))
    } else {
        collisions(ops, upto - 1)
    }
}

/// The first definition, from `from` on, for `identifier` written as
/// `op_type`.
pub open spec fn find_from(
    ops: Seq<OperatorView>,
    identifier: Seq<char>,
    op_type: OperatorType,
    from: int,
) -> Option<OperatorView>
    decreases ops.len() - from,
{
    if 0 <= from < ops.len() {
        if defines(ops[from], identifier, op_type) {
            Some(ops[from])
        } else {
            find_from(ops, identifier, op_type, from + 1)
        }
    } else {
        None
    }
}

/// The definition for `identifier` written as `op_type`, if there is one.
pub open spec fn find(ops: Seq<OperatorView>, identifier: Seq<char>, op_type: OperatorType)
    -> Option<OperatorView> {
    find_from(ops, identifier, op_type, 0)
}

/// What `find_from` finds is one of the definitions searched and is for the
/// identifier and type asked for; it finds nothing only where none is.
pub proof fn lemma_find_from(
    ops: Seq<OperatorView>,
    identifier: Seq<char>,
    op_type: OperatorType,
    from: int,
)
    requires
        0 <= from,
    ensures
        match find_from(ops, identifier, op_type, from) {
            Some(op) => defines(op, identifier, op_type) && exists|i: int|
                from <= i < ops.len() && ops[i] == op,
            None => forall|i: int|
                from <= i < ops.len() ==> !defines(#[trigger] ops[i], identifier, op_type),
        },
    decreases ops.len() - from,
{
    if from < ops.len() && !defines(ops[from], identifier, op_type) {
        lemma_find_from(ops, identifier, op_type, from + 1);
    }
}

/// Among distinct definitions, any one for an identifier and type is the one
/// that `find` gives for them.
pub proof fn lemma_find_unique(ops: Seq<OperatorView>, at: int)
    requires
        distinct(ops),
        0 <= at < ops.len(),
    ensures
        find(ops, ops[at].identifier, ops[at].op_type) == Some(ops[at]),
{
    lemma_find_from(ops, ops[at].identifier, ops[at].op_type, 0);
}

/// Definitions collide exactly where they are not distinct.
pub proof fn lemma_collisions_distinct(ops: Seq<OperatorView>, upto: int)
    requires
        0 <= upto <= ops.len(),
    ensures
        collisions(ops, upto).len() == 0 <==> distinct(ops.take(upto)),
    decreases upto,
{
    if upto > 0 {
        lemma_collisions_distinct(ops, upto - 1);
        let shorter = ops.take(upto - 1);
        let longer = ops.take(upto);
        if distinct(longer) {
            assert forall|i: int, j: int| 0 <= i < j < shorter.len() implies !defines(
                #[trigger] shorter[j],
                (#[trigger] shorter[i]).identifier,
                shorter[i].op_type,
            ) by {}
            if repeats(ops, upto - 1) {
                let i = choose|i: int|
                    0 <= i < upto - 1 && defines(
                        ops[upto - 1],
                        (#[trigger] ops[i]).identifier,
                        ops[i].op_type,
                    );
                assert(longer[i] == ops[i] && longer[upto - 1] == ops[upto - 1]);
            }
        } else {
            if distinct(shorter) && !repeats(ops, upto - 1) {
                assert forall|i: int, j: int| 0 <= i < j < longer.len() implies !defines(
                    #[trigger] longer[j],
                    (#[trigger] longer[i]).identifier,
                    longer[i].op_type,
                ) by {}
            }
        }
    }
}

/// The operators that a parse goes by. No two of its definitions are for
/// the same identifier written the same way; one identifier may well be
/// both a prefix and an infix operator.
pub struct OperatorTable {
    definitions: Vec<OperatorDefinition>,
}

impl View for OperatorTable {
    type V = Seq<OperatorView>;

    closed spec fn view(&self) -> Seq<OperatorView> {
        operator_views(self.definitions@)
    }
}

impl OperatorTable {
    #[verifier::type_invariant]
    spec fn well_formed(self) -> bool {
        distinct(operator_views(self.definitions@))
    }

    /// The definitions of the table, in the order they were given.
    pub fn definitions(&self) -> (r: &Vec<OperatorDefinition>)
        ensures
            operator_views(r@) == self@,
            distinct(self@),
    {
        proof {
            use_type_invariant(self);
        }
        &self.definitions
    }

    /// The table of `definitions`. Where some of them collide, there is no
    /// table: the result is one diagnostic for each definition that repeats
    /// an earlier one.
    pub fn new(definitions: Vec<OperatorDefinition>) -> (r: RoughResult<OperatorTable>)
        ensures
            match r {
                Ok(table) => {
                    &&& distinct(operator_views(definitions@))
                    &&& table@ == operator_views(definitions@)
                },
                Err(errors) => {
                    &&& !distinct(operator_views(definitions@))
                    &&& errors@.len() > 0
                    &&& diagnostics(errors@) == collisions(
                        operator_views(definitions@),
                        definitions@.len() as int,
                    )
                },
            },
    {
        let ghost ops = operator_views(definitions@);
        let mut errors: Vec<RoughError> = Vec::new();
        let mut at: usize = 0;
        while at < definitions.len()
            invariant
                at <= definitions.len(),
                ops == operator_views(definitions@),
                diagnostics(errors@) == collisions(ops, at as int),
            decreases definitions.len() - at,
        {
            let mut earlier: usize = 0;
            let mut repeated = false;
            while earlier < at && !repeated
                invariant
                    earlier <= at < definitions.len(),
                    ops == operator_views(definitions@),
                    !repeated ==> forall|i: int|
                        0 <= i < earlier ==> !defines(
                            ops[at as int],
                            (#[trigger] ops[i]).identifier,
                            ops[i].op_type,
                        ),
                    repeated ==> repeats(ops, at as int),
                decreases at - earlier, if repeated { 0int } else { 1int },
            {
                if definitions[earlier].op_type == definitions[at].op_type
                    && definitions[earlier].identifier == definitions[at].identifier {
                    repeated = true;
                    assert(defines(
                        ops[at as int],
                        ops[earlier as int].identifier,
                        ops[earlier as int].op_type,
                    ));
                } else {
                    earlier += 1;
                }
            }
            if repeated {
                let error = duplicate_error(&definitions[at]);
                errors.push(error);
            }
            at += 1;
        }
        proof {
            lemma_collisions_distinct(ops, ops.len() as int);
            assert(ops.take(ops.len() as int) =~= ops);
        }
        if errors.len() == 0 {
            Ok(OperatorTable { definitions })
        } else {
            Err(errors)
        }
    }

    /// The definition of `identifier` as an operator of type `op_type`, if
    /// the table has one.
    pub fn lookup(&self, identifier: &str, op_type: OperatorType) -> (r: Option<
        &OperatorDefinition,
    >)
        ensures
            distinct(self@),
            match r {
                Some(definition) => find(self@, identifier@, op_type) == Some(definition@),
                None => find(self@, identifier@, op_type) is None,
            },
    {
        proof {
            use_type_invariant(self);
        }
        let ghost ops = operator_views(self.definitions@);
        let mut at: usize = 0;
        while at < self.definitions.len()
            invariant
                at <= self.definitions.len(),
                ops == operator_views(self.definitions@),
                distinct(self@),
                find(ops, identifier@, op_type) == find_from(ops, identifier@, op_type, at as int),
            decreases self.definitions.len() - at,
        {
            let definition = &self.definitions[at];
            if definition.op_type == op_type && same_text(
                definition.identifier.as_str(),
                identifier,
            ) {
                return Some(definition);
            }
            at += 1;
        }
        None
    }
}

/// The error for a definition that repeats an earlier one.
fn duplicate_error(definition: &OperatorDefinition) -> (r: RoughError)
    ensures
        r@ == duplicate_definition(definition@),
{
    let mut message = "duplicate ".to_owned();
    match definition.op_type {
        OperatorType::Prefix => message.append("prefix"),
        OperatorType::Infix => message.append("infix"),
        OperatorType::Postfix => message.append("postfix"),
    }
    message.append(" operator `");
    message.append(definition.identifier.as_str());
    message.append("`");
    RoughError::new(message)
}

/// Whether two texts are made of the same characters.
pub fn same_text(a: &str, b: &str) -> (r: bool)
    ensures
        r == (a@ == b@),
{
    let left = a.as_bytes();
    let right = b.as_bytes();
    proof {
        encode_utf8_decode_utf8(a@);
        encode_utf8_decode_utf8(b@);
    }
    if left.len() != right.len() {
        return false;
    }
    let mut at: usize = 0;
    while at < left.len()
        invariant
            at <= left.len(),
            left.len() == right.len(),
            forall|i: int| 0 <= i < at ==> left@[i] == right@[i],
            left@ == a.spec_bytes(),
            right@ == b.spec_bytes(),
            a@ == b@ ==> left@ == right@,
        decreases left.len() - at,
    {
        if left[at] != right[at] {
            return false;
        }
        at += 1;
    }
    assert(left@ =~= right@);
    true
}

} // verus!
