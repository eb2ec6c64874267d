use lint_engine::lint::lint_tree;
use lint_engine::mutation::BatchMutation;
use lint_engine::no_double_equals::{
    action, diagnostic, fix_all, metadata, run, signals, ActionCategory, Applicability, FixKind,
    TextRange,
};
use lint_engine::process_file::{FileStatus, Message};
use lint_engine::syntax::{BinaryExpression, Operand, SyntaxTree, Token, TokenKind};

fn comparison(left: Operand, op: TokenKind, op_text: &str, right: Operand) -> SyntaxTree {
    let left_text = if left == Operand::NullLiteral { "null" } else { "foo" };
    let right_text = if right == Operand::NullLiteral { "null" } else { "bar" };
    let left_kind = if left == Operand::NullLiteral { TokenKind::NullKw } else { TokenKind::Ident };
    let right_kind = if right == Operand::NullLiteral { TokenKind::NullKw } else { TokenKind::Ident };
    SyntaxTree {
        tokens: vec![
            Token::with_trivia(left_kind, "", left_text, " "),
            Token::with_trivia(op, "", op_text, " "),
            Token::new(right_kind, right_text),
            Token::new(TokenKind::Semicolon, ";"),
        ],
        binaries: vec![BinaryExpression { left, operator: Some(1), right }],
    }
}

fn foo_eq_bar() -> SyntaxTree {
    comparison(Operand::Other, TokenKind::Eq2, "==", Operand::Other)
}

#[test]
fn text_reconstructs_source() {
    let tree = foo_eq_bar();
    assert_eq!(tree.text(), "foo == bar;");
}

#[test]
fn loose_equality_is_flagged() {
    let tree = foo_eq_bar();
    assert_eq!(run(&tree, 0), Some(1));
    let d = diagnostic(&tree, 1);
    assert_eq!(d.category, "lint/suspicious/noDoubleEquals");
    assert_eq!(d.message, "Use === instead of ==");
    assert_eq!(d.range, TextRange { start: 4, end: 6 });
    assert_eq!(d.detail_range, d.range);
    assert_eq!(d.detail, "== is only allowed when comparing against null");
    assert_eq!(d.note, "Using === may be unsafe if you are relying on type coercion");
    assert_eq!(
        d.description,
        "Use === instead of ==.\n== is only allowed when comparing against `null`"
    );
}

#[test]
fn loose_inequality_is_flagged() {
    let tree = comparison(Operand::Other, TokenKind::Neq, "!=", Operand::Other);
    assert_eq!(run(&tree, 0), Some(1));
    let d = diagnostic(&tree, 1);
    assert_eq!(d.message, "Use !== instead of !=");
    let a = action(&tree, 1).unwrap();
    assert_eq!(a.message, "Use !==");
    let fixed = a.mutation.commit(&tree);
    assert_eq!(fixed.text(), "foo !== bar;");
    assert_eq!(fixed.tokens[1].kind, TokenKind::Neq2);
}

#[test]
fn null_on_the_right_is_exempt() {
    let tree = comparison(Operand::Other, TokenKind::Eq2, "==", Operand::NullLiteral);
    assert_eq!(run(&tree, 0), None);
    let tree = comparison(Operand::Other, TokenKind::Neq, "!=", Operand::NullLiteral);
    assert_eq!(run(&tree, 0), None);
}

#[test]
fn null_on_the_left_is_exempt() {
    let tree = comparison(Operand::NullLiteral, TokenKind::Neq, "!=", Operand::Other);
    assert_eq!(run(&tree, 0), None);
    let tree = comparison(Operand::NullLiteral, TokenKind::Eq2, "==", Operand::NullLiteral);
    assert_eq!(run(&tree, 0), None);
}

#[test]
fn strict_and_other_operators_are_not_flagged() {
    let tree = comparison(Operand::Other, TokenKind::Eq3, "===", Operand::Other);
    assert_eq!(run(&tree, 0), None);
    let tree = comparison(Operand::Other, TokenKind::Less, "<", Operand::Other);
    assert_eq!(run(&tree, 0), None);
}

#[test]
fn missing_operator_or_operand_is_handled() {
    let mut tree = foo_eq_bar();
    tree.binaries[0].operator = None;
    assert_eq!(run(&tree, 0), None);
    let mut tree = foo_eq_bar();
    tree.binaries[0].left = Operand::Missing;
    assert_eq!(run(&tree, 0), Some(1));
}

#[test]
fn fix_replaces_only_the_operator_text() {
    let tree = SyntaxTree {
        tokens: vec![
            Token::with_trivia(TokenKind::Ident, "/* a */ ", "x", "  "),
            Token::with_trivia(TokenKind::Eq2, "", "==", "\t"),
            Token::with_trivia(TokenKind::Ident, "", "y", " // end"),
        ],
        binaries: vec![BinaryExpression {
            left: Operand::Other,
            operator: Some(1),
            right: Operand::Other,
        }],
    };
    let a = action(&tree, 1).unwrap();
    assert_eq!(a.category, ActionCategory::QuickFix);
    assert_eq!(a.applicability, Applicability::MaybeIncorrect);
    assert_eq!(a.message, "Use ===");
    assert_eq!(a.mutation.len(), 1);
    let fixed = a.mutation.commit(&tree);
    assert_eq!(fixed.text(), "/* a */ x  ===\ty // end");
    assert_eq!(fixed.tokens[1].kind, TokenKind::Eq3);
    assert_eq!(fixed.tokens[1].trailing, "\t");
    assert_eq!(fixed.tokens[0].leading, "/* a */ ");
    assert_eq!(fixed.tokens[2].trailing, " // end");
}

#[test]
fn disjoint_edits_commit_together() {
    let tree = foo_eq_bar();
    let mut batch = BatchMutation::begin();
    batch.replace_token(1, TokenKind::Neq2, "!==");
    batch.replace_token(2, TokenKind::NullKw, "null");
    assert_eq!(batch.len(), 2);
    let fixed = batch.commit(&tree);
    assert_eq!(fixed.text(), "foo !== null;");
    assert_eq!(fixed.binaries, tree.binaries);
    assert_eq!(tree.text(), "foo == bar;");
}

#[test]
fn fix_all_then_no_signals() {
    // a == b; c != null; d != e;
    let tree = SyntaxTree {
        tokens: vec![
            Token::with_trivia(TokenKind::Ident, "", "a", " "),
            Token::with_trivia(TokenKind::Eq2, "", "==", " "),
            Token::new(TokenKind::Ident, "b"),
            Token::with_trivia(TokenKind::Semicolon, "", ";", " "),
            Token::with_trivia(TokenKind::Ident, "", "c", " "),
            Token::with_trivia(TokenKind::Neq, "", "!=", " "),
            Token::new(TokenKind::NullKw, "null"),
            Token::with_trivia(TokenKind::Semicolon, "", ";", " "),
            Token::with_trivia(TokenKind::Ident, "", "d", " "),
            Token::with_trivia(TokenKind::Neq, "", "!=", " "),
            Token::new(TokenKind::Ident, "e"),
            Token::new(TokenKind::Semicolon, ";"),
        ],
        binaries: vec![
            BinaryExpression { left: Operand::Other, operator: Some(1), right: Operand::Other },
            BinaryExpression {
                left: Operand::Other,
                operator: Some(5),
                right: Operand::NullLiteral,
            },
            BinaryExpression { left: Operand::Other, operator: Some(9), right: Operand::Other },
        ],
    };
    assert_eq!(signals(&tree), vec![1, 9]);
    let fixed = fix_all(&tree);
    assert_eq!(fixed.text(), "a === b; c != null; d !== e;");
    assert_eq!(signals(&fixed), Vec::<usize>::new());
    let again = fix_all(&fixed);
    assert_eq!(again.text(), fixed.text());
}

#[test]
fn lint_foo_eq_bar_end_to_end() {
    let tree = foo_eq_bar();
    match lint_tree("test.js", &tree) {
        FileStatus::Message(Message::Diagnostics {
            name,
            content,
            diagnostics,
            skipped_diagnostics,
        }) => {
            assert_eq!(name, "test.js");
            assert_eq!(content, "foo == bar;");
            assert_eq!(skipped_diagnostics, 0);
            assert_eq!(diagnostics.len(), 1);
            assert_eq!(diagnostics[0].message, "Use === instead of ==");
        }
        other => panic!("unexpected outcome {:?}", other),
    }
    let fixed = fix_all(&tree);
    assert_eq!(fixed.text(), "foo === bar;");
    assert!(matches!(lint_tree("test.js", &fixed), FileStatus::Success));
}

#[test]
fn lint_foo_eq_null_is_success() {
    let tree = comparison(Operand::Other, TokenKind::Eq2, "==", Operand::NullLiteral);
    assert_eq!(tree.text(), "foo == null;");
    assert!(matches!(lint_tree("test.js", &tree), FileStatus::Success));
}

#[test]
fn rule_metadata() {
    let m = metadata();
    assert_eq!(m.name, "noDoubleEquals");
    assert_eq!(m.version, "1.0.0");
    assert_eq!(m.source, "eqeqeq");
    assert!(m.recommended);
    assert_eq!(m.fix_kind, FixKind::Unsafe);
}
