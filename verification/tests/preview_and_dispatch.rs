use sixtyfps_lsp::actions::get_code_actions;
use sixtyfps_lsp::diag::{DiagnosticLevel, SourceDiagnostic};
use sixtyfps_lsp::dispatch::{
    handle_request, notification_action, ClientNotification, ClientRequest, NotificationAction,
    RequestId, RequestOutcome,
};
use sixtyfps_lsp::document::{reload_document, CompileResult, Document, DocumentCache};
use sixtyfps_lsp::lines::newline_offsets_from_content;
use sixtyfps_lsp::preview::{
    build_preview_load, parse_show_preview_args, prepare_content_push, ComponentRec,
    PostLoadBehavior, Ty, TypeRegistry,
};
use sixtyfps_lsp::token::{NodeKind, SyntaxNodeRec, SyntaxTree, Token, TokenKind};

fn empty_registry() -> TypeRegistry {
    TypeRegistry { components: Vec::new(), builtins: Vec::new() }
}

fn window_registry() -> TypeRegistry {
    // Main derives from App, App derives from the builtin Window;
    // Rect derives from the builtin Rectangle.
    TypeRegistry {
        components: vec![
            ComponentRec { name: "Main".to_string(), base: Ty::Component { comp: 1 } },
            ComponentRec { name: "App".to_string(), base: Ty::Builtin { name: "Window".to_string() } },
            ComponentRec {
                name: "Rect".to_string(),
                base: Ty::Builtin { name: "Rectangle".to_string() },
            },
        ],
        builtins: vec!["Window".to_string(), "Rectangle".to_string()],
    }
}

fn demo_tree() -> SyntaxTree {
    SyntaxTree {
        nodes: vec![
            SyntaxNodeRec {
                kind: NodeKind::Component,
                parent: None,
                declared_name: Some("Main".to_string()),
            },
            SyntaxNodeRec { kind: NodeKind::DeclaredIdentifier, parent: Some(0), declared_name: None },
            SyntaxNodeRec { kind: NodeKind::Element, parent: Some(0), declared_name: None },
            SyntaxNodeRec { kind: NodeKind::QualifiedName, parent: Some(2), declared_name: None },
        ],
        tokens: vec![
            Token { kind: TokenKind::Identifier, start: 0, end: 4, parent: 1 },
            Token { kind: TokenKind::Whitespace, start: 4, end: 5, parent: 0 },
            Token { kind: TokenKind::LBrace, start: 5, end: 6, parent: 0 },
            Token { kind: TokenKind::RBrace, start: 6, end: 7, parent: 0 },
        ],
    }
}

fn demo_document() -> Document {
    let text = "Main { }".to_string();
    Document {
        uri: "file:///demo.ui".to_string(),
        path: "/demo.ui".to_string(),
        line_offsets: newline_offsets_from_content(&text),
        text,
        tree: Some(demo_tree()),
        registry: window_registry(),
        diagnostics: Vec::new(),
    }
}

fn demo_cache() -> DocumentCache {
    DocumentCache { docs: vec![demo_document()] }
}

fn str_value(s: &str) -> serde_json::Value {
    serde_json::Value::String(s.to_string())
}

#[test]
fn window_chain_resolves_to_window() {
    let reg = window_registry();
    assert!(reg.is_window(&"Main".to_string()));
    assert!(reg.is_window(&"App".to_string()));
    assert!(reg.is_window(&"Window".to_string()));
}

#[test]
fn non_window_chain_resolves_to_false() {
    let reg = window_registry();
    assert!(!reg.is_window(&"Rect".to_string()));
    assert!(!reg.is_window(&"Rectangle".to_string()));
    assert!(!reg.is_window(&"Missing".to_string()));
}

#[test]
fn parse_args_accepts_path_only() {
    let args = vec![str_value("missing/file.ui")];
    let parsed = parse_show_preview_args(&args).expect("one string argument is enough");
    assert_eq!(parsed.path, "missing/file.ui");
    assert!(parsed.component.is_none());
}

#[test]
fn parse_args_accepts_path_and_component() {
    let args = vec![str_value("/demo.ui"), str_value("Main")];
    let parsed = parse_show_preview_args(&args).expect("two string arguments");
    assert_eq!(parsed.path, "/demo.ui");
    assert_eq!(parsed.component.as_deref(), Some("Main"));
}

#[test]
fn parse_args_rejects_missing_or_non_string_path() {
    assert!(parse_show_preview_args(&Vec::new()).is_err());
    assert!(parse_show_preview_args(&vec![serde_json::Value::Bool(true)]).is_err());
    assert!(parse_show_preview_args(&vec![serde_json::Value::Null]).is_err());
}

#[test]
fn parse_args_tolerates_non_string_component() {
    let args = vec![str_value("/demo.ui"), serde_json::Value::Bool(true)];
    let parsed = parse_show_preview_args(&args).expect("a non-string component is tolerated");
    assert_eq!(parsed.path, "/demo.ui");
    assert!(parsed.component.is_none());
}

#[test]
fn content_push_prefers_canonical_path() {
    let push = prepare_content_push(
        &"rel/demo.ui".to_string(),
        &Some("/abs/demo.ui".to_string()),
        &"Main { }".to_string(),
    );
    assert_eq!(push.path, "/abs/demo.ui");
    assert_eq!(push.text, "Main { }");
    let fallback = prepare_content_push(&"rel/demo.ui".to_string(), &None, &"x".to_string());
    assert_eq!(fallback.path, "rel/demo.ui");
}

#[test]
fn preview_of_missing_path_uses_literal_path() {
    // Canonicalization failed (no such file): the literal path is used,
    // no component is named, and the instruction still goes out.
    let cache = DocumentCache::new();
    let cmd = build_preview_load(&cache, "missing/file.ui".to_string(), None, None);
    assert_eq!(cmd.component.path, "missing/file.ui");
    assert!(cmd.component.component.is_none());
    assert!(!cmd.component.is_window);
    assert_eq!(cmd.behavior, PostLoadBehavior::ShowAfterLoad);
}

#[test]
fn preview_canonical_path_wins_when_present() {
    let cache = demo_cache();
    let cmd = build_preview_load(
        &cache,
        "/demo.ui".to_string(),
        Some("/canon/demo.ui".to_string()),
        Some("Main".to_string()),
    );
    assert_eq!(cmd.component.path, "/canon/demo.ui");
    assert_eq!(cmd.component.component.as_deref(), Some("Main"));
    assert!(cmd.component.is_window);
}

#[test]
fn preview_component_in_unloaded_document_is_not_window() {
    let cache = DocumentCache::new();
    let cmd =
        build_preview_load(&cache, "/demo.ui".to_string(), None, Some("Main".to_string()));
    assert!(!cmd.component.is_window);
}

#[test]
fn code_action_on_component_node() {
    let doc = demo_document();
    let actions = get_code_actions(&doc, 0).expect("component offers an action");
    assert_eq!(actions.len(), 1);
    assert_eq!(actions[0].title, "Show preview");
    assert_eq!(actions[0].command, "showPreview");
    assert_eq!(actions[0].arguments, vec!["/demo.ui".to_string(), "Main".to_string()]);
}

#[test]
fn code_action_on_declared_identifier() {
    let doc = demo_document();
    let actions = get_code_actions(&doc, 1).expect("identifier under a component");
    assert_eq!(actions.len(), 1);
    assert_eq!(actions[0].arguments[1], "Main");
}

#[test]
fn code_action_on_qualified_name_through_element() {
    let doc = demo_document();
    let actions = get_code_actions(&doc, 3).expect("type reference inside the root element");
    assert_eq!(actions.len(), 1);
    assert_eq!(actions[0].arguments[1], "Main");
}

#[test]
fn no_code_action_on_plain_element() {
    let doc = demo_document();
    assert!(get_code_actions(&doc, 2).is_none());
}

#[test]
fn no_code_action_without_declared_name() {
    let mut doc = demo_document();
    if let Some(t) = doc.tree.as_mut() {
        t.nodes[0].declared_name = None;
    }
    assert!(get_code_actions(&doc, 0).is_none());
}

#[test]
fn no_code_action_for_empty_declared_name() {
    let mut doc = demo_document();
    if let Some(t) = doc.tree.as_mut() {
        t.nodes[0].declared_name = Some(String::new());
    }
    assert!(get_code_actions(&doc, 0).is_none());
}

#[test]
fn hover_always_answers_null() {
    let cache = demo_cache();
    let out = handle_request(&cache, ClientRequest::Hover { id: RequestId::Num(7) });
    assert!(matches!(out, RequestOutcome::RespondNull { id: RequestId::Num(7) }));
}

#[test]
fn goto_definition_resolves_token() {
    let cache = demo_cache();
    let out = handle_request(
        &cache,
        ClientRequest::GotoDefinition {
            id: RequestId::Num(1),
            uri: "file:///demo.ui".to_string(),
            line: 0,
            character: 2,
        },
    );
    match out {
        RequestOutcome::NeedsGotoDefinition { id: RequestId::Num(1), token } => {
            assert_eq!(token.offset, 2);
            assert_eq!(token.token.kind, TokenKind::Identifier);
        },
        other => panic!("unexpected outcome: {:?}", other),
    }
}

#[test]
fn goto_definition_on_unknown_document_answers_null() {
    let cache = demo_cache();
    let out = handle_request(
        &cache,
        ClientRequest::GotoDefinition {
            id: RequestId::Num(2),
            uri: "file:///other.ui".to_string(),
            line: 0,
            character: 0,
        },
    );
    assert!(matches!(out, RequestOutcome::RespondNull { id: RequestId::Num(2) }));
}

#[test]
fn code_action_request_synthesizes_preview() {
    let cache = demo_cache();
    let out = handle_request(
        &cache,
        ClientRequest::CodeAction {
            id: RequestId::Num(3),
            uri: "file:///demo.ui".to_string(),
            line: 0,
            character: 1,
        },
    );
    match out {
        RequestOutcome::RespondCodeActions { id: RequestId::Num(3), actions } => {
            let actions = actions.expect("the identifier's parent is the component");
            assert_eq!(actions.len(), 1);
            assert_eq!(actions[0].command, "showPreview");
        },
        other => panic!("unexpected outcome: {:?}", other),
    }
}

#[test]
fn execute_command_recognizes_show_preview() {
    let cache = demo_cache();
    let out = handle_request(
        &cache,
        ClientRequest::ExecuteCommand {
            id: RequestId::Str("r1".to_string()),
            command: "showPreview".to_string(),
            arguments: vec![str_value("missing/file.ui")],
        },
    );
    match out {
        RequestOutcome::NeedsPreview { path, component, .. } => {
            assert_eq!(path, "missing/file.ui");
            assert!(component.is_none());
        },
        other => panic!("unexpected outcome: {:?}", other),
    }
}

#[test]
fn execute_command_bad_args_still_answers_null() {
    let cache = demo_cache();
    let out = handle_request(
        &cache,
        ClientRequest::ExecuteCommand {
            id: RequestId::Num(4),
            command: "showPreview".to_string(),
            arguments: Vec::new(),
        },
    );
    assert!(matches!(out, RequestOutcome::RespondNull { id: RequestId::Num(4) }));
}

#[test]
fn unrecognized_command_answers_null() {
    let cache = demo_cache();
    let out = handle_request(
        &cache,
        ClientRequest::ExecuteCommand {
            id: RequestId::Num(5),
            command: "somethingElse".to_string(),
            arguments: vec![str_value("/x")],
        },
    );
    assert!(matches!(out, RequestOutcome::RespondNull { id: RequestId::Num(5) }));
}

#[test]
fn change_applies_only_last_content_change() {
    let action = notification_action(ClientNotification::DidChange {
        uri: "file:///demo.ui".to_string(),
        path: "/demo.ui".to_string(),
        content_changes: vec!["old".to_string(), "new".to_string()],
    });
    match action {
        NotificationAction::Reload { text, .. } => assert_eq!(text, "new"),
        other => panic!("unexpected action: {:?}", other),
    }
}

#[test]
fn open_reloads_with_given_text() {
    let action = notification_action(ClientNotification::DidOpen {
        uri: "file:///demo.ui".to_string(),
        path: "/demo.ui".to_string(),
        text: "Main { }".to_string(),
    });
    match action {
        NotificationAction::Reload { uri, path, text } => {
            assert_eq!(uri, "file:///demo.ui");
            assert_eq!(path, "/demo.ui");
            assert_eq!(text, "Main { }");
        },
        other => panic!("unexpected action: {:?}", other),
    }
}

#[test]
fn notification_preview_matches_command_path() {
    // The custom notification and the execute-command request dispatch
    // the same preview arguments.
    let args = vec![str_value("missing/file.ui"), str_value("Main")];
    let from_notification = match notification_action(ClientNotification::ShowPreview {
        arguments: args.clone(),
    }) {
        NotificationAction::Preview { path, component } => (path, component),
        other => panic!("unexpected action: {:?}", other),
    };
    let cache = DocumentCache::new();
    let from_command = match handle_request(
        &cache,
        ClientRequest::ExecuteCommand {
            id: RequestId::Num(9),
            command: "showPreview".to_string(),
            arguments: args,
        },
    ) {
        RequestOutcome::NeedsPreview { path, component, .. } => (path, component),
        other => panic!("unexpected outcome: {:?}", other),
    };
    assert_eq!(from_notification, from_command);
}

#[test]
fn notification_preview_with_bad_args_is_ignored() {
    let action = notification_action(ClientNotification::ShowPreview {
        arguments: vec![serde_json::Value::Bool(true)],
    });
    assert!(matches!(action, NotificationAction::Ignore));
}

#[test]
fn unknown_notification_is_ignored() {
    assert!(matches!(notification_action(ClientNotification::Other), NotificationAction::Ignore));
}

fn demo_compile(diags: Vec<SourceDiagnostic>, loaded: Vec<String>) -> CompileResult {
    CompileResult {
        tree: Some(demo_tree()),
        registry: window_registry(),
        loaded_files: loaded,
        diagnostics: diags,
    }
}

#[test]
fn reload_publishes_entry_for_reloaded_file() {
    let mut cache = DocumentCache::new();
    let push = prepare_content_push(
        &"/demo.ui".to_string(),
        &Some("/demo.ui".to_string()),
        &"Main { }\n".to_string(),
    );
    assert_eq!(push.path, "/demo.ui");
    assert_eq!(push.text, "Main { }\n");
    let publishes = reload_document(
        &mut cache,
        "file:///demo.ui".to_string(),
        "/demo.ui".to_string(),
        "Main { }\n".to_string(),
        demo_compile(Vec::new(), Vec::new()),
    );
    assert_eq!(publishes.len(), 1);
    assert_eq!(publishes[0].path, "/demo.ui");
    assert!(publishes[0].diagnostics.is_empty());
    let doc = cache.get_document(&"file:///demo.ui".to_string()).expect("document cached");
    assert_eq!(doc.text, "Main { }\n");
    assert_eq!(doc.line_offsets, vec![0, 9]);
}

#[test]
fn reload_replaces_prior_document() {
    let mut cache = DocumentCache::new();
    let uri = "file:///demo.ui".to_string();
    let path = "/demo.ui".to_string();
    let bad = vec![SourceDiagnostic {
        path: "/demo.ui".to_string(),
        path_is_absolute: true,
        line: 1,
        column: 1,
        level: DiagnosticLevel::Error,
        message: "broken".to_string(),
    }];
    let first = reload_document(
        &mut cache,
        uri.clone(),
        path.clone(),
        "Main {".to_string(),
        demo_compile(bad, vec![path.clone()]),
    );
    assert_eq!(first[0].diagnostics.len(), 1);
    let second = reload_document(
        &mut cache,
        uri.clone(),
        path.clone(),
        "Main { }".to_string(),
        demo_compile(Vec::new(), vec![path.clone()]),
    );
    // The fixed file's entry clears the stale marker.
    assert_eq!(second[0].path, "/demo.ui");
    assert!(second[0].diagnostics.is_empty());
    assert_eq!(cache.docs.len(), 1);
    assert_eq!(cache.docs[0].text, "Main { }");
}

#[test]
fn reloading_identical_text_twice_is_identical() {
    let mut c1 = DocumentCache::new();
    let mut c2 = DocumentCache::new();
    let diags = vec![SourceDiagnostic {
        path: "/demo.ui".to_string(),
        path_is_absolute: true,
        line: 2,
        column: 3,
        level: DiagnosticLevel::Warning,
        message: "odd".to_string(),
    }];
    let o1 = reload_document(
        &mut c1,
        "file:///demo.ui".to_string(),
        "/demo.ui".to_string(),
        "Main {\n}\n".to_string(),
        demo_compile(diags.clone(), vec!["/demo.ui".to_string()]),
    );
    // The second cache already holds the document; reloading replaces it.
    reload_document(
        &mut c2,
        "file:///demo.ui".to_string(),
        "/demo.ui".to_string(),
        "old text".to_string(),
        demo_compile(Vec::new(), Vec::new()),
    );
    let o2 = reload_document(
        &mut c2,
        "file:///demo.ui".to_string(),
        "/demo.ui".to_string(),
        "Main {\n}\n".to_string(),
        demo_compile(diags, vec!["/demo.ui".to_string()]),
    );
    assert_eq!(c1.docs[0].line_offsets, c2.docs[0].line_offsets);
    assert_eq!(o1.len(), o2.len());
    for (e1, e2) in o1.iter().zip(o2.iter()) {
        assert_eq!(e1.path, e2.path);
        assert_eq!(e1.diagnostics.len(), e2.diagnostics.len());
    }
}
