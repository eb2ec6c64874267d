//! The loose-equality rule: flag `==` and `!=`, except where either operand
//! is the `null` literal, and suggest the strict operator as a fix.
use crate::mutation::{apply_edits, edit_for, BatchMutation, TokenEdit};
use crate::syntax::{binaries_wf, lemma_source_of_concat, source_of, token_source, BinaryExpression, Operand, SyntaxTree, Token, TokenKind};
use vstd::prelude::*;
use vstd::string::*;

verus! {

/// How safe a rule's fix is to apply.
#[derive(Clone, Copy, Debug, PartialEq, Eq, Structural)]
pub enum FixKind {
    NoFix,
    Safe,
    Unsafe,
}

/// The category of a fix action.
#[derive(Clone, Copy, Debug, PartialEq, Eq, Structural)]
pub enum ActionCategory {
    QuickFix,
    Refactor,
}

/// Whether a fix may be applied unattended.
#[derive(Clone, Copy, Debug, PartialEq, Eq, Structural)]
pub enum Applicability {
    Always,
    MaybeIncorrect,
}

/// The fixed attributes of a rule.
#[derive(Debug)]
pub struct RuleMetadata {
    pub name: String,
    pub version: String,
    pub source: String,
    pub recommended: bool,
    pub fix_kind: FixKind,
}

/// A range of character offsets into the source text.
#[derive(Clone, Copy, Debug, PartialEq, Eq, Structural)]
pub struct TextRange {
    pub start: usize,
    pub end: usize,
}

/// A finding of the rule.
#[derive(Debug)]
pub struct RuleDiagnostic {
    pub category: String,
    pub range: TextRange,
    pub message: String,
    pub detail_range: TextRange,
    pub detail: String,
    pub note: String,
    pub description: String,
}

/// A suggested fix.
#[derive(Debug)]
pub struct RuleAction {
    pub category: ActionCategory,
    pub applicability: Applicability,
    pub message: String,
    pub mutation: BatchMutation,
}

pub open spec fn is_loose(k: TokenKind) -> bool {
    k == TokenKind::Eq2 || k == TokenKind::Neq
}

/// The strict counterpart of a loose operator.
pub open spec fn strict_of(k: TokenKind) -> TokenKind {
    if k == TokenKind::Eq2 {
        TokenKind::Eq3
    } else {
        TokenKind::Neq2
    }
}

pub open spec fn strict_text(k: TokenKind) -> Seq<char> {
    if k == TokenKind::Eq2 {
        "==="@
    } else {
        "!=="@
    }
}

/// The signal of one binary expression: its operator token, when that is a
/// loose operator and neither operand is the `null` literal.
pub open spec fn signal_of(tokens: Seq<Token>, e: BinaryExpression) -> Option<usize> {
    match e.operator {
        Some(o) => if o < tokens.len() && is_loose(tokens[o as int].kind) && e.left
            != Operand::NullLiteral && e.right != Operand::NullLiteral {
            Some(o)
        } else {
            None
        },
        None => None,
    }
}

/// The signals of all binary expressions, in tree order.
pub open spec fn signals_of(tokens: Seq<Token>, bs: Seq<BinaryExpression>) -> Seq<usize>
    decreases bs.len(),
{
    if bs.len() == 0 {
        Seq::empty()
    } else {
        match signal_of(tokens, bs.last()) {
            Some(o) => signals_of(tokens, bs.drop_last()).push(o),
            None => signals_of(tokens, bs.drop_last()),
        }
    }
}

/// Where the trimmed text of token `op` starts in the source.
pub open spec fn trimmed_start(tokens: Seq<Token>, op: int) -> int {
    (source_of(tokens.take(op)).len() + tokens[op].leading@.len()) as int
}

/// `d` is the finding for operator token `op`: it names the strict operator
/// and explains the coercion hazard.
pub open spec fn is_diagnostic_for(d: RuleDiagnostic, tokens: Seq<Token>, op: int) -> bool {
    let t = tokens[op];
    let s = strict_text(t.kind);
    let start = trimmed_start(tokens, op);
    &&& d.category@ == "lint/suspicious/noDoubleEquals"@
    &&& d.range.start == start
    &&& d.range.end == start + t.text@.len()
    &&& d.detail_range == d.range
    &&& d.message@ == "Use "@ + s + " instead of "@ + t.text@
    &&& d.detail@ == t.text@ + " is only allowed when comparing against null"@
    &&& d.note@ == "Using "@ + s + " may be unsafe if you are relying on type coercion"@
    &&& d.description@ == "Use "@ + s + " instead of "@ + t.text@ + ".\n"@ + t.text@
        + " is only allowed when comparing against `null`"@
}

/// `new` is `old` with every flagged operator made strict, trivia kept, and
/// every other token unchanged.
pub open spec fn is_fix_of(old: Seq<Token>, new: Seq<Token>, flagged: Seq<usize>) -> bool {
    &&& new.len() == old.len()
    &&& forall|i: int|
        0 <= i < old.len() ==> if flagged.contains(i as usize) {
            &&& (#[trigger] new[i]).kind == strict_of(old[i].kind)
            &&& new[i].text@ == strict_text(old[i].kind)
            &&& new[i].leading == old[i].leading
            &&& new[i].trailing == old[i].trailing
        } else {
            new[i] == old[i]
        }
}

proof fn lemma_prefix_len(ts: Seq<Token>, k: int)
    requires
        0 <= k <= ts.len(),
    ensures
        source_of(ts.take(k)).len() + token_source(ts[k]).len() <= source_of(ts).len() || k
            == ts.len(),
        source_of(ts.take(k)).len() <= source_of(ts).len(),
    decreases ts.len() - k,
{
    if k == ts.len() {
        assert(ts.take(k) =~= ts);
    } else {
        lemma_prefix_len(ts, k + 1);
        assert(ts.take(k + 1).drop_last() =~= ts.take(k));
        assert(ts.take(k + 1).last() == ts[k]);
    }
}

proof fn lemma_signal_in_signals(tokens: Seq<Token>, bs: Seq<BinaryExpression>, j: int)
    requires
        0 <= j < bs.len(),
        signal_of(tokens, bs[j]) is Some,
    ensures
        signals_of(tokens, bs).contains(signal_of(tokens, bs[j]).unwrap()),
    decreases bs.len(),
{
    let o = signal_of(tokens, bs[j]).unwrap();
    if j == bs.len() - 1 {
        assert(signals_of(tokens, bs).last() == o);
    } else {
        lemma_signal_in_signals(tokens, bs.drop_last(), j);
        let prev = signals_of(tokens, bs.drop_last());
        let k = choose|k: int| 0 <= k < prev.len() && prev[k] == o;
        assert(signals_of(tokens, bs)[k] == o);
    }
}

proof fn lemma_no_signal_empty(tokens: Seq<Token>, bs: Seq<BinaryExpression>)
    requires
        forall|j: int| 0 <= j < bs.len() ==> signal_of(tokens, #[trigger] bs[j]) is None,
    ensures
        signals_of(tokens, bs) == Seq::<usize>::empty(),
    decreases bs.len(),
{
    if bs.len() > 0 {
        assert(signal_of(tokens, bs[bs.len() - 1]) is None);
        lemma_no_signal_empty(tokens, bs.drop_last());
    }
}

/// Every signal is the index of a loose operator token.
pub proof fn lemma_signals_point_at_loose(tokens: Seq<Token>, bs: Seq<BinaryExpression>)
    ensures
        forall|k: int|
            0 <= k < signals_of(tokens, bs).len() ==> #[trigger] signals_of(tokens, bs)[k]
                < tokens.len() && is_loose(tokens[signals_of(tokens, bs)[k] as int].kind),
    decreases bs.len(),
{
    if bs.len() > 0 {
        lemma_signals_point_at_loose(tokens, bs.drop_last());
    }
}

proof fn lemma_signals_from_operators(tokens: Seq<Token>, bs: Seq<BinaryExpression>)
    ensures
        forall|k: int|
            0 <= k < signals_of(tokens, bs).len() ==> exists|j: int|
                0 <= j < bs.len() && (#[trigger] bs[j]).operator == Some(
                    #[trigger] signals_of(tokens, bs)[k],
                ),
    decreases bs.len(),
{
    if bs.len() > 0 {
        let prev = bs.drop_last();
        lemma_signals_from_operators(tokens, prev);
        let ps = signals_of(tokens, prev);
        let s = signals_of(tokens, bs);
        assert forall|k: int| 0 <= k < s.len() implies exists|j: int|
            0 <= j < bs.len() && (#[trigger] bs[j]).operator == Some(#[trigger] s[k]) by {
            if k < ps.len() {
                assert(s[k] == ps[k]);
                let j = choose|j: int| 0 <= j < prev.len() && (#[trigger] prev[j]).operator == Some(ps[k]);
                assert(bs[j] == prev[j]);
            } else {
                assert(bs[bs.len() - 1].operator == Some(s[k]));
            }
        }
    }
}

proof fn lemma_signals_distinct(tokens: Seq<Token>, bs: Seq<BinaryExpression>)
    requires
        binaries_wf(tokens, bs),
    ensures
        signals_of(tokens, bs).no_duplicates(),
    decreases bs.len(),
{
    if bs.len() > 0 {
        let n = bs.len() - 1;
        let prev = bs.drop_last();
        assert(binaries_wf(tokens, prev)) by {
            assert forall|i: int| 0 <= i < prev.len() implies #[trigger] prev[i] == bs[i] by {}
        }
        lemma_signals_distinct(tokens, prev);
        lemma_signals_from_operators(tokens, prev);
        let ps = signals_of(tokens, prev);
        let s = signals_of(tokens, bs);
        if signal_of(tokens, bs.last()) is Some {
            let o = signal_of(tokens, bs.last()).unwrap();
            assert(bs[n] == bs.last());
            assert forall|k: int| 0 <= k < ps.len() implies ps[k] != o by {
                let j = choose|j: int| 0 <= j < prev.len() && (#[trigger] prev[j]).operator == Some(ps[k]);
                assert(bs[j] == prev[j]);
                assert(j != n);
            }
            assert forall|a: int, b: int| 0 <= a < s.len() && 0 <= b < s.len() && a != b implies s[a]
                != s[b] by {
                if a < ps.len() && b < ps.len() {
                    assert(s[a] == ps[a] && s[b] == ps[b]);
                } else if a < ps.len() {
                    assert(s[a] == ps[a]);
                } else {
                    assert(s[b] == ps[b]);
                }
            }
        }
    }
}

/// Each edit of `edits` at position `k` replaces token `sigs[k]` by its strict
/// counterpart.
spec fn strict_edits(tokens: Seq<Token>, sigs: Seq<usize>, edits: Seq<TokenEdit>) -> bool {
    &&& edits.len() == sigs.len()
    &&& forall|k: int|
        0 <= k < edits.len() ==> {
            &&& (#[trigger] edits[k]).index == sigs[k]
            &&& edits[k].kind == strict_of(tokens[sigs[k] as int].kind)
            &&& edits[k].text@ == strict_text(tokens[sigs[k] as int].kind)
        }
}

proof fn lemma_edit_for_strict(
    tokens: Seq<Token>,
    sigs: Seq<usize>,
    edits: Seq<TokenEdit>,
    i: int,
)
    requires
        strict_edits(tokens, sigs, edits),
        0 <= i < tokens.len(),
        i <= usize::MAX,
    ensures
        sigs.contains(i as usize) ==> edit_for(edits, i) is Some,
        edit_for(edits, i) is Some ==> {
            &&& sigs.contains(i as usize)
            &&& edit_for(edits, i).unwrap().kind == strict_of(tokens[i].kind)
            &&& edit_for(edits, i).unwrap().text@ == strict_text(tokens[i].kind)
        },
    decreases edits.len(),
{
    if edits.len() > 0 {
        let n = edits.len() - 1;
        assert(strict_edits(tokens, sigs.drop_last(), edits.drop_last())) by {
            assert forall|k: int| 0 <= k < edits.drop_last().len() implies {
                &&& (#[trigger] edits.drop_last()[k]).index == sigs.drop_last()[k]
                &&& edits.drop_last()[k].kind == strict_of(tokens[sigs.drop_last()[k] as int].kind)
                &&& edits.drop_last()[k].text@ == strict_text(
                    tokens[sigs.drop_last()[k] as int].kind,
                )
            } by {
                assert(edits[k] == edits.drop_last()[k]);
            }
        }
        lemma_edit_for_strict(tokens, sigs.drop_last(), edits.drop_last(), i);
        assert(edits[n] == edits.last());
        if edits.last().index != i {
            if sigs.contains(i as usize) {
                let k = choose|k: int| 0 <= k < sigs.len() && sigs[k] == i as usize;
                assert(edits[k].index == sigs[k]);
                assert(edits[n].index == sigs[n]);
                assert(k != n);
                assert(sigs.drop_last()[k] == i as usize);
            }
            if edit_for(edits, i) is Some {
                let k = choose|k: int|
                    0 <= k < sigs.drop_last().len() && sigs.drop_last()[k] == i as usize;
                assert(sigs[k] == i as usize);
            }
        } else {
            assert(sigs[n] == i as usize);
        }
    }
}

/// The rule's fixed attributes.
pub fn metadata() -> (r: RuleMetadata)
    ensures
        r.name@ == "noDoubleEquals"@,
        r.version@ == "1.0.0"@,
        r.source@ == "eqeqeq"@,
        r.recommended,
        r.fix_kind == FixKind::Unsafe,
{
    RuleMetadata {
        name: "noDoubleEquals".to_owned(),
        version: "1.0.0".to_owned(),
        source: "eqeqeq".to_owned(),
        recommended: true,
        fix_kind: FixKind::Unsafe,
    }
}

fn is_null_literal(operand: Operand) -> (r: bool)
    ensures
        r == (operand == Operand::NullLiteral),
{
    match operand {
        Operand::NullLiteral => true,
        _ => false,
    }
}

fn strict_operator(k: TokenKind) -> (r: (TokenKind, &'static str))
    ensures
        r.0 == strict_of(k),
        r.1@ == strict_text(k),
{
    if k == TokenKind::Eq2 {
        (TokenKind::Eq3, "===")
    } else {
        (TokenKind::Neq2, "!==")
    }
}

/// Inspect binary expression `expr`: its operator token when that is `==` or
/// `!=` and neither operand is the `null` literal.
pub fn run(tree: &SyntaxTree, expr: usize) -> (r: Option<usize>)
    requires
        expr < tree.binaries@.len(),
    ensures
        r == signal_of(tree.tokens@, tree.binaries@[expr as int]),
{
    let e = tree.binaries[expr];
    let op = match e.operator {
        Some(o) => o,
        None => return None,
    };
    if op >= tree.tokens.len() {
        return None;
    }
    let k = tree.tokens[op].kind;
    if !(k == TokenKind::Eq2 || k == TokenKind::Neq) {
        return None;
    }
    if is_null_literal(e.left) || is_null_literal(e.right) {
        return None;
    }
    Some(op)
}

/// The signals of every binary expression of the tree, in tree order.
pub fn signals(tree: &SyntaxTree) -> (r: Vec<usize>)
    ensures
        r@ == signals_of(tree.tokens@, tree.binaries@),
{
    let mut out: Vec<usize> = Vec::new();
    let mut j: usize = 0;
    while j < tree.binaries.len()
        invariant
            j <= tree.binaries.len(),
            out@ == signals_of(tree.tokens@, tree.binaries@.take(j as int)),
        decreases tree.binaries.len() - j,
    {
        let s = run(tree, j);
        proof {
            let next = tree.binaries@.take(j + 1);
            assert(next.drop_last() =~= tree.binaries@.take(j as int));
            assert(next.last() == tree.binaries@[j as int]);
        }
        match s {
            Some(o) => out.push(o),
            None => {},
        }
        j = j + 1;
    }
    assert(tree.binaries@.take(j as int) =~= tree.binaries@);
    out
}

/// The character offset at which token `op`'s trimmed text starts.
fn trimmed_offset(tree: &SyntaxTree, op: usize) -> (r: usize)
    requires
        op < tree.tokens@.len(),
        source_of(tree.tokens@).len() <= usize::MAX,
    ensures
        r == trimmed_start(tree.tokens@, op as int),
{
    let mut offset: usize = 0;
    let mut i: usize = 0;
    while i < op
        invariant
            i <= op < tree.tokens@.len(),
            source_of(tree.tokens@).len() <= usize::MAX,
            offset == source_of(tree.tokens@.take(i as int)).len(),
        decreases op - i,
    {
        let t = &tree.tokens[i];
        proof {
            lemma_prefix_len(tree.tokens@, i as int);
            assert(tree.tokens@.take(i + 1).drop_last() =~= tree.tokens@.take(i as int));
            assert(tree.tokens@.take(i + 1).last() == tree.tokens@[i as int]);
        }
        offset = offset + t.leading.as_str().unicode_len() + t.text.as_str().unicode_len()
            + t.trailing.as_str().unicode_len();
        i = i + 1;
    }
    proof {
        lemma_prefix_len(tree.tokens@, op as int);
    }
    offset + tree.tokens[op].leading.as_str().unicode_len()
}

/// The finding for operator token `op`: it names the strict operator and
/// explains the coercion hazard.
pub fn diagnostic(tree: &SyntaxTree, op: usize) -> (r: RuleDiagnostic)
    requires
        op < tree.tokens@.len(),
        source_of(tree.tokens@).len() <= usize::MAX,
    ensures
        is_diagnostic_for(r, tree.tokens@, op as int),
{
    let t = &tree.tokens[op];
    let (_, suggestion) = strict_operator(t.kind);
    let text = t.text.as_str();
    let start = trimmed_offset(tree, op);
    proof {
        lemma_prefix_len(tree.tokens@, op as int);
    }
    let range = TextRange { start, end: start + text.unicode_len() };
    let message = "Use ".to_owned().concat(suggestion).concat(" instead of ").concat(text);
    let detail = text.to_owned().concat(" is only allowed when comparing against null");
    let note = "Using ".to_owned().concat(suggestion).concat(
        " may be unsafe if you are relying on type coercion",
    );
    let description = "Use ".to_owned().concat(suggestion).concat(" instead of ").concat(
        text,
    ).concat(".\n").concat(text).concat(" is only allowed when comparing against `null`");
    RuleDiagnostic {
        category: "lint/suspicious/noDoubleEquals".to_owned(),
        range,
        message,
        detail_range: range,
        detail,
        note,
        description,
    }
}

/// The fix for operator token `op`: a batch that replaces that one token by
/// its strict counterpart. The rewrite may change behaviour where coercion
/// was relied upon, so it is tagged as maybe incorrect.
pub fn action(tree: &SyntaxTree, op: usize) -> (r: Option<RuleAction>)
    requires
        op < tree.tokens@.len(),
    ensures
        r is Some,
        ({
            let a = r.unwrap();
            let k = tree.tokens@[op as int].kind;
            &&& a.category == ActionCategory::QuickFix
            &&& a.applicability == Applicability::MaybeIncorrect
            &&& a.message@ == "Use "@ + strict_text(k)
            &&& a.mutation@.len() == 1
            &&& a.mutation@[0].index == op
            &&& a.mutation@[0].kind == strict_of(k)
            &&& a.mutation@[0].text@ == strict_text(k)
        }),
{
    let mut mutation = BatchMutation::begin();
    let (kind, text) = strict_operator(tree.tokens[op].kind);
    mutation.replace_token(op, kind, text);
    proof {
        assert(mutation@.drop_last().len() == 0);
    }
    Some(
        RuleAction {
            category: ActionCategory::QuickFix,
            applicability: Applicability::MaybeIncorrect,
            message: "Use ".to_owned().concat(text),
            mutation,
        },
    )
}

/// Apply the fixes of every signal of the tree in one batch; distinct
/// expressions have distinct operators, so the edits are disjoint.
pub fn fix_all(tree: &SyntaxTree) -> (r: SyntaxTree)
    requires
        tree.wf(),
    ensures
        is_fix_of(tree.tokens@, r.tokens@, signals_of(tree.tokens@, tree.binaries@)),
        r.binaries@ == tree.binaries@,
{
    let sigs = signals(tree);
    proof {
        lemma_signals_point_at_loose(tree.tokens@, tree.binaries@);
        lemma_signals_distinct(tree.tokens@, tree.binaries@);
    }
    let mut mutation = BatchMutation::begin();
    let mut k: usize = 0;
    while k < sigs.len()
        invariant
            k <= sigs.len(),
            sigs@ == signals_of(tree.tokens@, tree.binaries@),
            forall|m: int|
                0 <= m < sigs@.len() ==> #[trigger] sigs@[m] < tree.tokens@.len(),
            sigs@.no_duplicates(),
            mutation.wf(),
            strict_edits(tree.tokens@, sigs@.take(k as int), mutation@),
        decreases sigs.len() - k,
    {
        let op = sigs[k];
        assert(op < tree.tokens@.len());
        assert(!mutation.targets(op)) by {
            if mutation.targets(op) {
                let m = choose|m: int| 0 <= m < mutation@.len() && (#[trigger] mutation@[m]).index == op;
                assert(sigs@.take(k as int)[m] == sigs@[m]);
            }
        }
        let (kind, text) = strict_operator(tree.tokens[op].kind);
        mutation.replace_token(op, kind, text);
        proof {
            let s = sigs@.take(k + 1);
            assert forall|m: int| 0 <= m < mutation@.len() implies {
                &&& (#[trigger] mutation@[m]).index == s[m]
                &&& mutation@[m].kind == strict_of(tree.tokens@[s[m] as int].kind)
                &&& mutation@[m].text@ == strict_text(tree.tokens@[s[m] as int].kind)
            } by {
                if m < k {
                    assert(mutation@[m] == mutation@.drop_last()[m]);
                    assert(s[m] == sigs@.take(k as int)[m]);
                }
            }
        }
        k = k + 1;
    }
    assert(sigs@.take(k as int) =~= sigs@);
    let ghost edits = mutation@;
    // the token count fits in usize, which the lemma below needs
    let _n = tree.tokens.len();
    let r = mutation.commit(tree);
    proof {
        let flagged = sigs@;
        assert forall|i: int| 0 <= i < tree.tokens@.len() implies if flagged.contains(i as usize) {
            &&& (#[trigger] r.tokens@[i]).kind == strict_of(tree.tokens@[i].kind)
            &&& r.tokens@[i].text@ == strict_text(tree.tokens@[i].kind)
            &&& r.tokens@[i].leading == tree.tokens@[i].leading
            &&& r.tokens@[i].trailing == tree.tokens@[i].trailing
        } else {
            r.tokens@[i] == tree.tokens@[i]
        } by {
            lemma_edit_for_strict(tree.tokens@, flagged, edits, i);
        }
    }
    r
}

/// For a binary expression whose operator is `==` or `!=` and neither of
/// whose operands is the `null` literal, the rule signals that operator, and
/// the fix names the strict operator.
pub proof fn law_loose_comparison_is_flagged(tokens: Seq<Token>, e: BinaryExpression)
    requires
        e.operator is Some,
        e.operator.unwrap() < tokens.len(),
        is_loose(tokens[e.operator.unwrap() as int].kind),
        e.left != Operand::NullLiteral,
        e.right != Operand::NullLiteral,
    ensures
        signal_of(tokens, e) == e.operator,
        tokens[e.operator.unwrap() as int].kind == TokenKind::Eq2 ==> strict_text(
            tokens[e.operator.unwrap() as int].kind,
        ) == "==="@,
        tokens[e.operator.unwrap() as int].kind == TokenKind::Neq ==> strict_text(
            tokens[e.operator.unwrap() as int].kind,
        ) == "!=="@,
{
}

/// A binary expression with a `null` literal on either side is never
/// signalled, whatever its operator.
pub proof fn law_null_comparison_is_exempt(tokens: Seq<Token>, e: BinaryExpression)
    requires
        e.left == Operand::NullLiteral || e.right == Operand::NullLiteral,
    ensures
        signal_of(tokens, e) is None,
{
}

/// Committing the rule's fix changes the operator token's kind and text
/// only: its trivia, and every other token, are left as they were, so the
/// new source is the old one with the operator's text replaced.
pub proof fn law_fix_touches_only_the_operator(tokens: Seq<Token>, edits: Seq<TokenEdit>, op: int)
    requires
        0 <= op < tokens.len(),
        edits.len() == 1,
        edits[0].index == op,
        edits[0].kind == strict_of(tokens[op].kind),
        edits[0].text@ == strict_text(tokens[op].kind),
    ensures
        apply_edits(tokens, edits).len() == tokens.len(),
        forall|i: int|
            0 <= i < tokens.len() && i != op ==> #[trigger] apply_edits(tokens, edits)[i]
                == tokens[i],
        apply_edits(tokens, edits)[op].leading == tokens[op].leading,
        apply_edits(tokens, edits)[op].trailing == tokens[op].trailing,
        apply_edits(tokens, edits)[op].kind == strict_of(tokens[op].kind),
        apply_edits(tokens, edits)[op].text@ == strict_text(tokens[op].kind),
        apply_edits(tokens, edits).take(op) == tokens.take(op),
        apply_edits(tokens, edits).skip(op + 1) == tokens.skip(op + 1),
        source_of(apply_edits(tokens, edits)) == source_of(tokens.take(op)) + tokens[op].leading@
            + strict_text(tokens[op].kind) + tokens[op].trailing@ + source_of(tokens.skip(op + 1)),
{
    let new = apply_edits(tokens, edits);
    assert forall|i: int| 0 <= i < tokens.len() && i != op implies #[trigger] new[i] == tokens[i] by {
        assert(edits.drop_last().len() == 0);
        assert(edit_for(edits.drop_last(), i) is None);
    }
    assert(edits.last() == edits[0]);
    assert(new.take(op) =~= tokens.take(op));
    assert(new.skip(op + 1) =~= tokens.skip(op + 1));
    let mid = seq![new[op]];
    assert(new =~= tokens.take(op) + mid + tokens.skip(op + 1));
    lemma_source_of_concat(tokens.take(op), mid);
    lemma_source_of_concat(tokens.take(op) + mid, tokens.skip(op + 1));
    assert(mid.drop_last() =~= Seq::<Token>::empty());
    assert(source_of(mid.drop_last()) == Seq::<char>::empty());
    assert(mid.last() == new[op]);
    assert(source_of(mid) =~= token_source(new[op]));
}

/// Once every fix of the rule has been applied, running the rule again on
/// the same expressions signals nothing.
pub proof fn law_fix_all_is_idempotent(
    tokens: Seq<Token>,
    fixed: Seq<Token>,
    bs: Seq<BinaryExpression>,
)
    requires
        is_fix_of(tokens, fixed, signals_of(tokens, bs)),
    ensures
        signals_of(fixed, bs) == Seq::<usize>::empty(),
{
    let flagged = signals_of(tokens, bs);
    assert forall|j: int| 0 <= j < bs.len() implies signal_of(fixed, #[trigger] bs[j]) is None by {
        let e = bs[j];
        if let Some(o) = e.operator {
            if o < tokens.len() {
                let i = o as int;
                assert(fixed[i] == fixed[i]);
                if flagged.contains(o) {
                    assert(fixed[i].kind == strict_of(tokens[i].kind));
                } else {
                    if signal_of(tokens, e) is Some {
                        lemma_signal_in_signals(tokens, bs, j);
                    }
                    assert(fixed[i] == tokens[i]);
                }
            }
        }
    }
    lemma_no_signal_empty(fixed, bs);
}

} // verus!
