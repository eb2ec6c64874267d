//! A batch of structural edits recorded against a tree and committed into a
//! new tree.
use crate::syntax::{SyntaxTree, Token, TokenKind};
use vstd::prelude::*;

verus! {

/// Replace the token at `index` by one of the given kind and text, keeping
/// the old token's trivia.
#[derive(Debug)]
pub struct TokenEdit {
    pub index: usize,
    pub kind: TokenKind,
    pub text: String,
}

/// The edit that targets token `i`, if any.
pub open spec fn edit_for(edits: Seq<TokenEdit>, i: int) -> Option<TokenEdit>
    decreases edits.len(),
{
    if edits.len() == 0 {
        None
    } else if edits.last().index == i {
        Some(edits.last())
    } else {
        edit_for(edits.drop_last(), i)
    }
}

/// A token after an edit: the new kind and text between the old trivia.
pub open spec fn edited(t: Token, e: TokenEdit) -> Token {
    Token { kind: e.kind, leading: t.leading, text: e.text, trailing: t.trailing }
}

/// The tokens after applying a sequence of edits.
pub open spec fn apply_edits(tokens: Seq<Token>, edits: Seq<TokenEdit>) -> Seq<Token> {
    Seq::new(
        tokens.len(),
        |i: int|
            match edit_for(edits, i) {
                Some(e) => edited(tokens[i], e),
                None => tokens[i],
            },
    )
}

/// An editable overlay over one tree: the edits recorded so far, in order.
#[derive(Debug)]
pub struct BatchMutation {
    edits: Vec<TokenEdit>,
}

impl BatchMutation {
    pub closed spec fn view(&self) -> Seq<TokenEdit> {
        self.edits@
    }

    /// Some edit of the batch targets token `i`.
    pub open spec fn targets(&self, i: usize) -> bool {
        exists|k: int| 0 <= k < self@.len() && (#[trigger] self@[k]).index == i
    }

    /// No two edits target the same token.
    pub open spec fn wf(&self) -> bool {
        forall|k: int, m: int|
            0 <= k < m < self@.len() ==> (#[trigger] self@[k]).index != (#[trigger] self@[m]).index
    }

    /// An empty batch.
    pub fn begin() -> (r: BatchMutation)
        ensures
            r@ == Seq::<TokenEdit>::empty(),
            r.wf(),
    {
        BatchMutation { edits: Vec::new() }
    }

    /// The number of edits recorded.
    pub fn len(&self) -> (r: usize)
        ensures
            r == self@.len(),
    {
        self.edits.len()
    }

    /// Record the replacement of token `index` by a token of `kind` and `text`.
    /// Edits of one batch are disjoint: the token must not be targeted yet.
    pub fn replace_token(&mut self, index: usize, kind: TokenKind, text: &str)
        requires
            old(self).wf(),
            !old(self).targets(index),
        ensures
            final(self).wf(),
            final(self)@.len() == old(self)@.len() + 1,
            final(self)@.drop_last() == old(self)@,
            final(self)@.last().index == index,
            final(self)@.last().kind == kind,
            final(self)@.last().text@ == text@,
    {
        self.edits.push(TokenEdit { index, kind, text: text.to_owned() });
        proof {
            assert(self.edits@.drop_last() =~= old(self).edits@);
            assert forall|k: int, m: int| 0 <= k < m < self@.len() implies (#[trigger] self@[k]).index
                != (#[trigger] self@[m]).index by {
                if m < self@.len() - 1 {
                    assert(self@[k] == old(self)@[k]);
                    assert(self@[m] == old(self)@[m]);
                } else {
                    assert(self@[k] == old(self)@[k]);
                }
            }
        }
    }

    /// Commit the batch into a new tree: the edited tokens change, every other
    /// token and every binary expression stays as it was.
    pub fn commit(self, tree: &SyntaxTree) -> (r: SyntaxTree)
        ensures
            r.tokens@ == apply_edits(tree.tokens@, self@),
            r.binaries@ == tree.binaries@,
    {
        let mut tokens: Vec<Token> = Vec::new();
        let mut i: usize = 0;
        while i < tree.tokens.len()
            invariant
                i <= tree.tokens.len(),
                tokens@ == tree.tokens@.take(i as int),
            decreases tree.tokens.len() - i,
        {
            tokens.push(tree.tokens[i].duplicate());
            assert(tokens@ =~= tree.tokens@.take(i + 1));
            i = i + 1;
        }
        assert(tokens@ =~= tree.tokens@);
        let ghost all = self.edits@;
        let mut j: usize = 0;
        while j < self.edits.len()
            invariant
                j <= self.edits.len(),
                all == self.edits@,
                tokens@ == apply_edits(tree.tokens@, all.take(j as int)),
            decreases self.edits.len() - j,
        {
            let e = &self.edits[j];
            if e.index < tokens.len() {
                let old_token = &tokens[e.index];
                let t = Token {
                    kind: e.kind,
                    leading: old_token.leading.clone(),
                    text: e.text.clone(),
                    trailing: old_token.trailing.clone(),
                };
                tokens.set(e.index, t);
            }
            proof {
                let next = all.take(j + 1);
                assert(next.drop_last() =~= all.take(j as int));
                assert(next.last() == all[j as int]);
                assert(tokens@ =~= apply_edits(tree.tokens@, next));
            }
            j = j + 1;
        }
        assert(all.take(j as int) =~= all);
        let binaries = tree.binaries.clone();
        SyntaxTree { tokens, binaries }
    }
}

} // verus!
