//! A lossless syntax model: a flat sequence of tokens, each carrying its own
//! trivia, and the binary expressions found over them.
use vstd::prelude::*;

verus! {

/// The kind tag of a token.
#[derive(Clone, Copy, Debug, PartialEq, Eq, Structural)]
pub enum TokenKind {
    /// `==`
    Eq2,
    /// `!=`
    Neq,
    /// `===`
    Eq3,
    /// `!==`
    Neq2,
    /// `<`
    Less,
    /// `>`
    Greater,
    /// `+`
    Plus,
    /// `-`
    Minus,
    /// An identifier.
    Ident,
    /// The `null` keyword.
    NullKw,
    /// A numeric or string literal.
    Literal,
    /// `;`
    Semicolon,
    /// Any other token.
    Other,
}

/// One token: its kind, its leading trivia, its trimmed text and its
/// trailing trivia.
#[derive(Debug)]
pub struct Token {
    pub kind: TokenKind,
    pub leading: String,
    pub text: String,
    pub trailing: String,
}

/// What an operand of a binary expression is, as far as the rules need it.
/// `Missing` stands for an operand the parser could not produce.
#[derive(Clone, Copy, Debug, PartialEq, Eq, Structural)]
pub enum Operand {
    Missing,
    NullLiteral,
    Other,
}

/// A binary expression: its operands and the index of its operator token,
/// if the parser produced one.
#[derive(Clone, Copy, Debug, PartialEq, Eq, Structural)]
pub struct BinaryExpression {
    pub left: Operand,
    pub operator: Option<usize>,
    pub right: Operand,
}

/// The syntax tree of one file.
#[derive(Debug)]
pub struct SyntaxTree {
    pub tokens: Vec<Token>,
    pub binaries: Vec<BinaryExpression>,
}

/// The full text of one token, trivia included.
pub open spec fn token_source(t: Token) -> Seq<char> {
    t.leading@ + t.text@ + t.trailing@
}

/// The text of a token sequence: every token's full text, in order.
pub open spec fn source_of(ts: Seq<Token>) -> Seq<char>
    decreases ts.len(),
{
    if ts.len() == 0 {
        Seq::empty()
    } else {
        source_of(ts.drop_last()) + token_source(ts.last())
    }
}

/// Every operator index points at a token, and no two binary expressions
/// share an operator token.
pub open spec fn binaries_wf(tokens: Seq<Token>, bs: Seq<BinaryExpression>) -> bool {
    &&& forall|i: int|
        0 <= i < bs.len() && (#[trigger] bs[i]).operator.is_some() ==> bs[i].operator.unwrap()
            < tokens.len()
    &&& forall|i: int, j: int|
        0 <= i < bs.len() && 0 <= j < bs.len() && i != j && (#[trigger] bs[i]).operator.is_some()
            && (#[trigger] bs[j]).operator.is_some() ==> bs[i].operator.unwrap()
            != bs[j].operator.unwrap()
}

/// The text of two token sequences side by side is the text of each, in turn.
pub proof fn lemma_source_of_concat(a: Seq<Token>, b: Seq<Token>)
    ensures
        source_of(a + b) == source_of(a) + source_of(b),
    decreases b.len(),
{
    if b.len() == 0 {
        assert(a + b =~= a);
        assert(source_of(a) + source_of(b) =~= source_of(a));
    } else {
        lemma_source_of_concat(a, b.drop_last());
        assert((a + b).drop_last() =~= a + b.drop_last());
        assert((a + b).last() == b.last());
        assert(source_of(a + b) =~= source_of(a) + source_of(b));
    }
}

impl Token {
    /// A token with the given kind and text and no trivia.
    pub fn new(kind: TokenKind, text: &str) -> (r: Token)
        ensures
            r.kind == kind,
            r.text@ == text@,
            r.leading@ == Seq::<char>::empty(),
            r.trailing@ == Seq::<char>::empty(),
    {
        Token { kind, leading: String::new(), text: text.to_owned(), trailing: String::new() }
    }

    /// A token with the given trivia around it.
    pub fn with_trivia(kind: TokenKind, leading: &str, text: &str, trailing: &str) -> (r: Token)
        ensures
            r.kind == kind,
            r.text@ == text@,
            r.leading@ == leading@,
            r.trailing@ == trailing@,
    {
        Token {
            kind,
            leading: leading.to_owned(),
            text: text.to_owned(),
            trailing: trailing.to_owned(),
        }
    }

    /// A copy of this token.
    pub fn duplicate(&self) -> (r: Token)
        ensures
            r == *self,
    {
        Token {
            kind: self.kind,
            leading: self.leading.clone(),
            text: self.text.clone(),
            trailing: self.trailing.clone(),
        }
    }
}

impl SyntaxTree {
    pub open spec fn wf(&self) -> bool {
        binaries_wf(self.tokens@, self.binaries@)
    }

    /// The source text the tree was parsed from.
    pub fn text(&self) -> (r: String)
        ensures
            r@ == source_of(self.tokens@),
    {
        let mut out = String::new();
        let mut i: usize = 0;
        while i < self.tokens.len()
            invariant
                i <= self.tokens.len(),
                out@ == source_of(self.tokens@.take(i as int)),
            decreases self.tokens.len() - i,
        {
            let t = &self.tokens[i];
            out.append(t.leading.as_str());
            out.append(t.text.as_str());
            out.append(t.trailing.as_str());
            proof {
                assert(self.tokens@.take(i + 1).drop_last() =~= self.tokens@.take(i as int));
            }
            i = i + 1;
        }
        assert(self.tokens@.take(i as int) =~= self.tokens@);
        out
    }
}

} // verus!
