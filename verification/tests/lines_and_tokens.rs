use sixtyfps_lsp::document::Document;
use sixtyfps_lsp::lines::newline_offsets_from_content;
use sixtyfps_lsp::preview::TypeRegistry;
use sixtyfps_lsp::token::{pick_side, Preferred, SyntaxNodeRec, SyntaxTree, NodeKind, Token, TokenKind};

fn empty_registry() -> TypeRegistry {
    TypeRegistry { components: Vec::new(), builtins: Vec::new() }
}

/// The token stream of `"A { }\n"`: identifier, space, brace, space,
/// brace, newline.
fn demo_tree() -> SyntaxTree {
    SyntaxTree {
        nodes: vec![SyntaxNodeRec {
            kind: NodeKind::Component,
            parent: None,
            declared_name: Some("A".to_string()),
        }],
        tokens: vec![
            Token { kind: TokenKind::Identifier, start: 0, end: 1, parent: 0 },
            Token { kind: TokenKind::Whitespace, start: 1, end: 2, parent: 0 },
            Token { kind: TokenKind::LBrace, start: 2, end: 3, parent: 0 },
            Token { kind: TokenKind::Whitespace, start: 3, end: 4, parent: 0 },
            Token { kind: TokenKind::RBrace, start: 4, end: 5, parent: 0 },
            Token { kind: TokenKind::Whitespace, start: 5, end: 6, parent: 0 },
        ],
    }
}

fn demo_document() -> Document {
    let text = "A { }\n".to_string();
    Document {
        uri: "file:///demo.ui".to_string(),
        path: "/demo.ui".to_string(),
        line_offsets: newline_offsets_from_content(&text),
        text,
        tree: Some(demo_tree()),
        registry: empty_registry(),
        diagnostics: Vec::new(),
    }
}

#[test]
fn line_offsets_empty_text() {
    assert_eq!(newline_offsets_from_content(""), vec![0]);
}

#[test]
fn line_offsets_single_line() {
    assert_eq!(newline_offsets_from_content("hello"), vec![0]);
}

#[test]
fn line_offsets_trailing_newline_opens_line() {
    // One newline: the text holds two lines, the trailing empty one
    // starting right after the newline byte.
    assert_eq!(newline_offsets_from_content("A { }\n"), vec![0, 6]);
}

#[test]
fn line_offsets_multiple_lines() {
    assert_eq!(newline_offsets_from_content("ab\nc\n\nd"), vec![0, 3, 5, 6]);
}

#[test]
fn line_offsets_strictly_increasing() {
    let offs = newline_offsets_from_content("x\ny\nz\n");
    assert_eq!(offs[0], 0);
    for w in offs.windows(2) {
        assert!(w[0] < w[1]);
    }
    assert_eq!(offs.len(), 4);
}

#[test]
fn resolve_brace_at_offset_two() {
    // Position (line 0, col 2) denotes raw offset 2, the `{` token.
    let doc = demo_document();
    let rt = doc.resolve_position(0, 2).expect("position resolves");
    assert_eq!(rt.offset, 2);
    assert_eq!(rt.token.kind, TokenKind::LBrace);
    assert!(rt.token.start <= 2 && 2 <= rt.token.end);
}

#[test]
fn resolve_second_line_offset() {
    let text = "A {\n}\n".to_string();
    let doc = Document {
        uri: "file:///two.ui".to_string(),
        path: "/two.ui".to_string(),
        line_offsets: newline_offsets_from_content(&text),
        text,
        tree: Some(SyntaxTree {
            nodes: vec![SyntaxNodeRec { kind: NodeKind::Other, parent: None, declared_name: None }],
            tokens: vec![
                Token { kind: TokenKind::Identifier, start: 0, end: 1, parent: 0 },
                Token { kind: TokenKind::Whitespace, start: 1, end: 2, parent: 0 },
                Token { kind: TokenKind::LBrace, start: 2, end: 3, parent: 0 },
                Token { kind: TokenKind::Whitespace, start: 3, end: 4, parent: 0 },
                Token { kind: TokenKind::RBrace, start: 4, end: 5, parent: 0 },
                Token { kind: TokenKind::Whitespace, start: 5, end: 6, parent: 0 },
            ],
        }),
        registry: empty_registry(),
        diagnostics: Vec::new(),
    };
    // (line 1, col 0) -> raw offset 4, the `}` token.
    let rt = doc.resolve_position(1, 0).expect("position resolves");
    assert_eq!(rt.offset, 4);
    assert_eq!(rt.token.kind, TokenKind::RBrace);
}

#[test]
fn resolve_fails_outside_compiled_range() {
    let doc = demo_document();
    // Raw offset 6 == end of the compiled range: not inside.
    assert!(doc.resolve_position(0, 6).is_none());
    assert!(doc.resolve_position(0, 100).is_none());
}

#[test]
fn resolve_fails_on_missing_line() {
    let doc = demo_document();
    assert!(doc.resolve_position(7, 0).is_none());
}

#[test]
fn resolve_fails_without_tree() {
    let mut doc = demo_document();
    doc.tree = None;
    assert!(doc.resolve_position(0, 2).is_none());
}

#[test]
fn boundary_prefers_identifier_from_left() {
    // identifier | dot: the identifier ends where the dot starts.
    let tree = SyntaxTree {
        nodes: vec![SyntaxNodeRec { kind: NodeKind::Other, parent: None, declared_name: None }],
        tokens: vec![
            Token { kind: TokenKind::Identifier, start: 0, end: 3, parent: 0 },
            Token { kind: TokenKind::Dot, start: 3, end: 4, parent: 0 },
        ],
    };
    let t = tree.token_at_offset(3);
    assert_eq!(t.kind, TokenKind::Identifier);
}

#[test]
fn boundary_prefers_identifier_from_right() {
    // dot | identifier: the identifier starts where the dot ends.
    let tree = SyntaxTree {
        nodes: vec![SyntaxNodeRec { kind: NodeKind::Other, parent: None, declared_name: None }],
        tokens: vec![
            Token { kind: TokenKind::Dot, start: 0, end: 1, parent: 0 },
            Token { kind: TokenKind::Identifier, start: 1, end: 3, parent: 0 },
        ],
    };
    let t = tree.token_at_offset(1);
    assert_eq!(t.kind, TokenKind::Identifier);
}

#[test]
fn boundary_prefers_dot_over_whitespace() {
    let tree = SyntaxTree {
        nodes: vec![SyntaxNodeRec { kind: NodeKind::Other, parent: None, declared_name: None }],
        tokens: vec![
            Token { kind: TokenKind::Whitespace, start: 0, end: 2, parent: 0 },
            Token { kind: TokenKind::Dot, start: 2, end: 3, parent: 0 },
        ],
    };
    let t = tree.token_at_offset(2);
    assert_eq!(t.kind, TokenKind::Dot);
}

#[test]
fn boundary_defaults_to_left_token() {
    let tree = SyntaxTree {
        nodes: vec![SyntaxNodeRec { kind: NodeKind::Other, parent: None, declared_name: None }],
        tokens: vec![
            Token { kind: TokenKind::LBrace, start: 0, end: 1, parent: 0 },
            Token { kind: TokenKind::RBrace, start: 1, end: 2, parent: 0 },
        ],
    };
    let t = tree.token_at_offset(1);
    assert_eq!(t.kind, TokenKind::LBrace);
    assert_eq!(t.start, 0);
}

#[test]
fn precedence_table_is_total_on_identifiers() {
    for other in [
        TokenKind::Dot,
        TokenKind::Whitespace,
        TokenKind::Comment,
        TokenKind::LBrace,
        TokenKind::RBrace,
        TokenKind::Other,
    ] {
        assert_eq!(pick_side(TokenKind::Identifier, other), Preferred::Left);
        assert_eq!(pick_side(other, TokenKind::Identifier), Preferred::Right);
    }
}

#[test]
fn whitespace_and_comment_lose_boundaries() {
    assert_eq!(pick_side(TokenKind::Whitespace, TokenKind::LBrace), Preferred::Right);
    assert_eq!(pick_side(TokenKind::Comment, TokenKind::LBrace), Preferred::Right);
    assert_eq!(pick_side(TokenKind::LBrace, TokenKind::Whitespace), Preferred::Left);
    assert_eq!(pick_side(TokenKind::RBrace, TokenKind::Comment), Preferred::Left);
}
