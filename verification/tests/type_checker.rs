use oxc::linter::diagnostic::Diagnostic;
use oxc::type_checker::ast::TypeId;
use oxc::type_checker::checker::check::{
    CheckContext, CheckMode, CONTEXTUAL, INFERENTIAL, NORMAL, TYPE_ONLY,
};
use oxc::type_checker::checker::get_type::{TSLiteral, TSType, TypeFromNode};
use oxc::type_checker::checker::{Checker, CheckerSettings, Intrinsics, SemanticFacts};

fn intrinsics() -> Intrinsics {
    let id = |index| TypeId { index };
    Intrinsics {
        any: id(1),
        unknown: id(2),
        string: id(3),
        number: id(4),
        bigint: id(5),
        boolean: id(6),
        es_symbol: id(7),
        void: id(8),
        undefined: id(9),
        null: id(10),
        never: id(11),
        non_primitive: id(12),
        intrinsic_marker: id(13),
    }
}

fn checker(is_javascript: bool, no_implicit_any: bool) -> Checker {
    Checker::new(
        CheckerSettings { no_implicit_any },
        intrinsics(),
        SemanticFacts { is_javascript, has_cfg: true },
    )
}

fn known(resolution: TypeFromNode) -> u32 {
    match resolution {
        TypeFromNode::Known(id) => id.index,
        other => panic!("not a known type: {other:?}"),
    }
}

#[test]
fn every_mode_is_normal() {
    assert!(CheckMode::default().is_normal());
    assert!(CheckMode::from_bits(NORMAL).is_normal());
    assert!(CheckMode::from_bits(CONTEXTUAL).is_normal());
    assert!(CheckMode::from_bits(CONTEXTUAL | TYPE_ONLY).is_normal());
    assert!(CheckMode::from_bits(0xff).is_normal());
}

#[test]
fn mode_contains_the_bits_that_are_set() {
    let mode = CheckMode::from_bits(CONTEXTUAL | TYPE_ONLY);
    assert!(mode.contains(CheckMode::from_bits(CONTEXTUAL)));
    assert!(mode.contains(CheckMode::from_bits(TYPE_ONLY)));
    assert!(mode.contains(mode));
    assert!(!mode.contains(CheckMode::from_bits(INFERENTIAL)));
    assert!(!mode.contains(CheckMode::from_bits(CONTEXTUAL | INFERENTIAL)));
    assert_eq!(CheckContext::default().mode, CheckMode::default());
    assert!(!CheckContext::default().force_tuple);
}

#[test]
fn keywords_stand_for_the_intrinsic_types() {
    let checker = checker(false, false);
    let cases = [
        (TSType::TSAnyKeyword, 1),
        (TSType::TSUnknownKeyword, 2),
        (TSType::TSStringKeyword, 3),
        (TSType::TSNumberKeyword, 4),
        (TSType::TSBigIntKeyword, 5),
        (TSType::TSBooleanKeyword, 6),
        (TSType::TSSymbolKeyword, 7),
        (TSType::TSVoidKeyword, 8),
        (TSType::TSUndefinedKeyword, 9),
        (TSType::TSNullKeyword, 10),
        (TSType::TSNeverKeyword, 11),
        (TSType::TSObjectKeyword, 12),
        (TSType::TSIntrinsicKeyword, 13),
    ];
    for (node, expected) in cases {
        assert_eq!(known(node.get_type_from_type_node(&checker)), expected);
    }
}

#[test]
fn object_is_any_in_javascript_without_no_implicit_any() {
    assert_eq!(known(TSType::TSObjectKeyword.get_type_from_type_node(&checker(true, false))), 1);
    assert_eq!(known(TSType::TSObjectKeyword.get_type_from_type_node(&checker(true, true))), 12);
    assert_eq!(known(TSType::TSObjectKeyword.get_type_from_type_node(&checker(false, false))), 12);
}

#[test]
fn null_literal_is_null_and_other_literals_are_not_resolved() {
    let checker = checker(false, false);
    assert_eq!(known(TSLiteral::NullLiteral.get_type_from_type_node(&checker)), 10);
    assert_eq!(
        known(TSType::TSLiteralType(TSLiteral::NullLiteral).get_type_from_type_node(&checker)),
        10
    );
    assert!(matches!(
        TSType::TSLiteralType(TSLiteral::StringLiteral).get_type_from_type_node(&checker),
        TypeFromNode::Unsupported
    ));
    assert!(matches!(
        TSType::Unresolved.get_type_from_type_node(&checker),
        TypeFromNode::Unsupported
    ));
}

#[test]
fn parentheses_and_unions_are_looked_into() {
    let checker = checker(false, false);
    let node = TSType::TSParenthesizedType(Box::new(TSType::TSParenthesizedType(Box::new(
        TSType::TSStringKeyword,
    ))));
    assert_eq!(known(node.get_type_from_type_node(&checker)), 3);
    let union = TSType::TSUnionType(vec![
        TSType::TSStringKeyword,
        TSType::TSParenthesizedType(Box::new(TSType::TSNumberKeyword)),
        TSType::TSUnionType(vec![TSType::TSNullKeyword]),
        TSType::Unresolved,
    ]);
    match union.get_type_from_type_node(&checker) {
        TypeFromNode::Union(members) => {
            assert_eq!(members.len(), 4);
            assert!(matches!(members[0], TypeFromNode::Known(TypeId { index: 3 })));
            assert!(matches!(members[1], TypeFromNode::Known(TypeId { index: 4 })));
            match &members[2] {
                TypeFromNode::Union(inner) => {
                    assert!(matches!(inner[..], [TypeFromNode::Known(TypeId { index: 10 })]));
                }
                other => panic!("not a union: {other:?}"),
            }
            assert!(matches!(members[3], TypeFromNode::Unsupported));
        }
        other => panic!("not a union: {other:?}"),
    }
}

#[test]
fn checker_collects_errors() {
    let mut checker = checker(true, false);
    assert!(checker.diagnostics.is_empty());
    checker.error(Diagnostic::warn("first".to_string()));
    checker.error(Diagnostic::warn("second".to_string()));
    let messages: Vec<&str> =
        checker.diagnostics.iter().map(|error| error.message.as_str()).collect();
    assert_eq!(messages, vec!["first", "second"]);
}

#[test]
fn expression_is_checked_in_the_context_that_is_asked_for() {
    let mut checker = checker(false, false);
    let seen = checker.check_expression(|ctx| {
        assert_eq!(*ctx, CheckContext::default());
        TypeId { index: 21 }
    });
    assert_eq!(seen, TypeId { index: 21 });
    let mode = CheckMode::from_bits(INFERENTIAL);
    let seen = checker.check_expression_with_options(
        |ctx| {
            assert_eq!(ctx.mode, mode);
            assert!(ctx.force_tuple);
            assert_eq!(ctx.instantiation_count, 0);
            assert_eq!(ctx.instantiation_depth, 0);
            TypeId { index: 22 }
        },
        mode,
        true,
    );
    assert_eq!(seen, TypeId { index: 22 });
    let context = CheckContext { mode, force_tuple: false, ..CheckContext::default() };
    let seen = checker.check_expression_cached(
        |ctx| {
            assert_eq!(*ctx, context);
            TypeId { index: 23 }
        },
        &context,
    );
    assert_eq!(seen, TypeId { index: 23 });
}
