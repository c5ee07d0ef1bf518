//! Model of a compiled document's token stream and the
//! position-to-token resolver.
//!
//! A compiled document is a sequence of non-empty, contiguous tokens
//! covering the byte range `[0, end)`. A raw offset strictly inside one
//! token touches that token alone; an offset on the boundary between two
//! tokens touches both, and a fixed precedence table picks one of them so
//! that completion and goto-definition see a stable token.

use vstd::prelude::*;

verus! {

/// Lexical kind of a syntax token.
#[derive(Clone, Copy, PartialEq, Eq, Structural, Debug)]
pub enum TokenKind {
    Identifier,
    Dot,
    Whitespace,
    Comment,
    LBrace,
    RBrace,
    Other,
}

/// Kind of a syntax node, as far as the code-action synthesizer reads it.
#[derive(Clone, Copy, PartialEq, Eq, Structural, Debug)]
pub enum NodeKind {
    Component,
    DeclaredIdentifier,
    QualifiedName,
    Element,
    Other,
}

/// One syntax token: its kind, its byte range `[start, end)`, and the
/// index of its parent node in the tree's node table.
#[derive(Clone, Copy, PartialEq, Eq, Structural, Debug)]
pub struct Token {
    pub kind: TokenKind,
    pub start: u32,
    pub end: u32,
    pub parent: usize,
}

/// One syntax node: its kind, its parent (an earlier index in the node
/// table, or none for the root), and, for a component node, the text of
/// its declared identifier.
#[derive(Clone, Debug)]
pub struct SyntaxNodeRec {
    pub kind: NodeKind,
    pub parent: Option<usize>,
    pub declared_name: Option<String>,
}

/// A compiled document's syntax tree: a node table (parents before
/// children) and the token stream.
#[derive(Clone, Debug)]
pub struct SyntaxTree {
    pub nodes: Vec<SyntaxNodeRec>,
    pub tokens: Vec<Token>,
}

/// The tokens are non-empty and contiguous: the first starts at offset
/// 0 and each later one starts where its predecessor ends.
pub open spec fn tokens_contiguous(toks: Seq<Token>) -> bool {
    &&& forall|i: int| 0 <= i < toks.len() ==> (#[trigger] toks[i].start) < toks[i].end
    &&& (toks.len() > 0 ==> toks[0].start == 0)
    &&& forall|i: int| 0 <= i && i + 1 < toks.len() ==> (#[trigger] toks[i].end) == toks[i + 1].start
}

impl SyntaxTree {
    /// The tree is well formed: tokens are non-empty and contiguous from
    /// offset 0, token parents point into the node table, and each
    /// node's parent stands earlier in the table than the node itself.
    pub open spec fn wf(&self) -> bool {
        &&& tokens_contiguous(self.tokens@)
        &&& forall|i: int|
            0 <= i < self.tokens@.len() ==> (#[trigger] self.tokens@[i].parent) < self.nodes@.len()
        &&& forall|i: int|
            0 <= i < self.nodes@.len() ==> ((#[trigger] self.nodes@[i].parent) matches Some(p)
                ==> p < i)
    }

    /// End of the compiled byte range; an offset is inside the range iff
    /// it is strictly below this.
    pub open spec fn spec_end_offset(&self) -> u32 {
        if self.tokens@.len() == 0 {
            0u32
        } else {
            self.tokens@.last().end
        }
    }

    /// Returns the end of the compiled byte range.
    pub fn end_offset(&self) -> (r: u32)
        ensures
            r == self.spec_end_offset(),
    {
        if self.tokens.len() == 0 {
            0
        } else {
            self.tokens[self.tokens.len() - 1].end
        }
    }

    /// The offsets strictly inside the range are exactly those below some
    /// token's end; tokens' ends grow with their index.
    pub proof fn lemma_token_ranges(&self)
        requires
            self.wf(),
        ensures
            forall|i: int|
                0 <= i < self.tokens@.len() ==> (#[trigger] self.tokens@[i]).end
                    <= self.spec_end_offset(),
            forall|i: int, j: int|
                0 <= i < j < self.tokens@.len() ==> (#[trigger] self.tokens@[i]).end <= (
                #[trigger] self.tokens@[j]).start,
    {
        assert forall|i: int, j: int| 0 <= i < j < self.tokens@.len() implies (
        #[trigger] self.tokens@[i]).end <= (#[trigger] self.tokens@[j]).start by {
            self.lemma_ends_increase(i, j);
        }
        assert forall|i: int| 0 <= i < self.tokens@.len() implies (#[trigger] self.tokens@[i]).end
            <= self.spec_end_offset() by {
            if i < self.tokens@.len() - 1 {
                self.lemma_ends_increase(i, self.tokens@.len() - 1);
            }
        }
    }

    proof fn lemma_ends_increase(&self, i: int, j: int)
        requires
            self.wf(),
            0 <= i < j < self.tokens@.len(),
        ensures
            self.tokens@[i].end <= self.tokens@[j].start,
        decreases j - i,
    {
        assert(self.tokens@[j - 1].end == self.tokens@[j].start);
        if i + 1 < j {
            self.lemma_ends_increase(i, j - 1);
            assert(self.tokens@[j - 1].start < self.tokens@[j - 1].end);
        }
    }

    /// At most one token's half-open range holds a given offset.
    proof fn lemma_covering_unique(&self, o: u32, i: int, j: int)
        requires
            self.wf(),
            0 <= i < self.tokens@.len(),
            0 <= j < self.tokens@.len(),
            self.tokens@[i].start <= o < self.tokens@[i].end,
            self.tokens@[j].start <= o < self.tokens@[j].end,
        ensures
            i == j,
    {
        if i < j {
            self.lemma_ends_increase(i, j);
        } else if j < i {
            self.lemma_ends_increase(j, i);
        }
    }

    /// Finds the token that an in-range offset resolves to: the covering
    /// token, or, at a boundary, the side the precedence table picks.
    pub fn token_at_offset(&self, o: u32) -> (r: Token)
        requires
            self.wf(),
            o < self.spec_end_offset(),
        ensures
            r == spec_token_at(self.tokens@, o),
            r.start <= o <= r.end,
            exists|i: int| 0 <= i < self.tokens@.len() && self.tokens@[i] == r,
    {
        proof {
            self.lemma_token_ranges();
        }
        let n = self.tokens.len();
        let mut i: usize = 0;
        while self.tokens[i].end <= o
            invariant
                self.wf(),
                o < self.spec_end_offset(),
                i < n,
                n == self.tokens@.len(),
                self.tokens@[i as int].start <= o,
            decreases n - i,
        {
            proof {
                if i + 1 == n {
                    assert(self.tokens@.last() == self.tokens@[i as int]);
                    assert(false);
                }
                assert(self.tokens@[i + 1].start == self.tokens@[i as int].end);
            }
            i = i + 1;
        }
        assert(self.tokens@[i as int].start <= o < self.tokens@[i as int].end);
        if i > 0 && self.tokens[i].start == o {
            // boundary between tokens i-1 and i
            proof {
                assert(self.tokens@[i - 1].end == self.tokens@[i as int].start);
                assert(is_boundary(self.tokens@, o));
                let l = boundary_left(self.tokens@, o);
                assert(self.tokens@[l].end == o && l + 1 < self.tokens@.len());
                assert(self.tokens@[l + 1].start == o < self.tokens@[l + 1].end);
                self.lemma_covering_unique(o, l + 1, i as int);
            }
            let left = self.tokens[i - 1];
            let right = self.tokens[i];
            match pick_side(left.kind, right.kind) {
                Preferred::Left => left,
                Preferred::Right => right,
            }
        } else {
            proof {
                if is_boundary(self.tokens@, o) {
                    let l = boundary_left(self.tokens@, o);
                    assert(self.tokens@[l].end == o && l + 1 < self.tokens@.len());
                    assert(self.tokens@[l + 1].start == o < self.tokens@[l + 1].end);
                    self.lemma_covering_unique(o, l + 1, i as int);
                }
                assert(!is_boundary(self.tokens@, o));
                assert(covering_index(self.tokens@, o) == i as int) by {
                    assert(self.tokens@[i as int].start <= o < self.tokens@[i as int].end);
                    let c = covering_index(self.tokens@, o);
                    assert(self.tokens@[c].start <= o < self.tokens@[c].end);
                    self.lemma_covering_unique(o, c, i as int);
                }
            }
            self.tokens[i]
        }
    }
}

/// A resolved position: the token the resolver picked and the raw byte
/// offset the position denotes. The token's range holds the offset,
/// inclusively at its end when the offset sits on a boundary.
#[derive(Clone, Copy, PartialEq, Eq, Structural, Debug)]
pub struct ResolvedToken {
    pub token: Token,
    pub offset: u32,
}

/// The offset `o` sits on the boundary between two tokens: some token
/// ends at `o` and another begins there.
pub open spec fn is_boundary(toks: Seq<Token>, o: u32) -> bool {
    exists|i: int| 0 <= i && i + 1 < toks.len() && (#[trigger] toks[i].end) == o
}

/// Index of the token to the left of the boundary at `o`.
pub open spec fn boundary_left(toks: Seq<Token>, o: u32) -> int {
    choose|i: int| 0 <= i && i + 1 < toks.len() && (#[trigger] toks[i].end) == o
}

/// Index of the token whose half-open range `[start, end)` holds `o`.
pub open spec fn covering_index(toks: Seq<Token>, o: u32) -> int {
    choose|i: int| 0 <= i < toks.len() && (#[trigger] toks[i].start) <= o < toks[i].end
}

/// The token that resolution yields for an in-range offset `o`: at a
/// boundary, the side the precedence table picks; elsewhere, the one
/// token whose range holds `o`.
pub open spec fn spec_token_at(toks: Seq<Token>, o: u32) -> Token {
    if is_boundary(toks, o) {
        let l = boundary_left(toks, o);
        if spec_pick_side(toks[l].kind, toks[l + 1].kind) == Preferred::Left {
            toks[l]
        } else {
            toks[l + 1]
        }
    } else {
        toks[covering_index(toks, o)]
    }
}

/// Which of the two tokens at a boundary the resolver keeps.
#[derive(Clone, Copy, PartialEq, Eq, Structural, Debug)]
pub enum Preferred {
    Left,
    Right,
}

/// The precedence table for an offset on the boundary between two
/// tokens: an identifier wins over any other kind, then a dot, then the
/// side that is not whitespace or a comment; otherwise the left (earlier)
/// token stays.
pub open spec fn spec_pick_side(l: TokenKind, r: TokenKind) -> Preferred {
    if l == TokenKind::Identifier {
        Preferred::Left
    } else if r == TokenKind::Identifier {
        Preferred::Right
    } else if l == TokenKind::Dot {
        Preferred::Left
    } else if r == TokenKind::Dot {
        Preferred::Right
    } else if l == TokenKind::Whitespace || l == TokenKind::Comment {
        Preferred::Right
    } else if r == TokenKind::Whitespace || r == TokenKind::Comment {
        Preferred::Left
    } else {
        Preferred::Left
    }
}

/// Applies the boundary precedence table to the two token kinds.
pub fn pick_side(l: TokenKind, r: TokenKind) -> (p: Preferred)
    ensures
        p == spec_pick_side(l, r),
{
    if l == TokenKind::Identifier {
        Preferred::Left
    } else if r == TokenKind::Identifier {
        Preferred::Right
    } else if l == TokenKind::Dot {
        Preferred::Left
    } else if r == TokenKind::Dot {
        Preferred::Right
    } else if l == TokenKind::Whitespace || l == TokenKind::Comment {
        Preferred::Right
    } else if r == TokenKind::Whitespace || r == TokenKind::Comment {
        Preferred::Left
    } else {
        Preferred::Left
    }
}

/// At a boundary that touches an identifier token, resolution keeps the
/// identifier, regardless of which side of the boundary it stands on.
pub proof fn lemma_identifier_precedence(l: TokenKind, r: TokenKind)
    requires
        l == TokenKind::Identifier || r == TokenKind::Identifier,
    ensures
        (if spec_pick_side(l, r) == Preferred::Left {
            l
        } else {
            r
        }) == TokenKind::Identifier,
{
}

/// A dot token wins a boundary whenever no identifier is in play.
pub proof fn lemma_dot_precedence(l: TokenKind, r: TokenKind)
    requires
        l != TokenKind::Identifier,
        r != TokenKind::Identifier,
        l == TokenKind::Dot || r == TokenKind::Dot,
    ensures
        (if spec_pick_side(l, r) == Preferred::Left {
            l
        } else {
            r
        }) == TokenKind::Dot,
{
}

} // verus!
