//! The request dispatcher's decision logic: strictly sequential, one
//! outcome per inbound message, exactly one response per recognized
//! request, tagged with the request's identifier. Work that only the
//! surrounding loop can do — asking the compiler frontend for a
//! definition or completion list, canonicalizing a path, compiling — is
//! named in the outcome and handed back as plain values.

use vstd::prelude::*;
use crate::actions::{code_actions_match, get_code_actions, CommandAction};
use crate::document::{spec_get_doc, DocumentCache};
use crate::preview::{component_arg_matches, json_str_of, parse_show_preview_args, CommandError};
use crate::token::ResolvedToken;

verus! {

/// A protocol request identifier: a number or a string, echoed verbatim
/// in the response.
#[derive(Debug)]
pub enum RequestId {
    Num(i64),
    Str(String),
}

/// One recognized inbound request, already shaped into plain values.
#[derive(Debug)]
pub enum ClientRequest {
    GotoDefinition { id: RequestId, uri: String, line: u32, character: u32 },
    Completion { id: RequestId, uri: String, line: u32, character: u32 },
    Hover { id: RequestId },
    CodeAction { id: RequestId, uri: String, line: u32, character: u32 },
    ExecuteCommand { id: RequestId, command: String, arguments: Vec<serde_json::Value> },
}

/// The identifier a request carries.
pub open spec fn request_id(req: ClientRequest) -> RequestId {
    match req {
        ClientRequest::GotoDefinition { id, .. } => id,
        ClientRequest::Completion { id, .. } => id,
        ClientRequest::Hover { id } => id,
        ClientRequest::CodeAction { id, .. } => id,
        ClientRequest::ExecuteCommand { id, .. } => id,
    }
}

/// What the dispatcher decides for one request. Every variant carries
/// exactly one response to send, under the request's own identifier;
/// the `Needs` variants additionally name the outside work whose result
/// completes that response.
#[derive(Debug)]
pub enum RequestOutcome {
    /// Ask the goto-definition algorithm about the token; respond with
    /// the found location or null.
    NeedsGotoDefinition { id: RequestId, token: ResolvedToken },
    /// Ask the completion algorithm about the token and offset; respond
    /// with the candidates or null.
    NeedsCompletion { id: RequestId, token: ResolvedToken },
    /// Canonicalize the path, build the preview-load instruction,
    /// enqueue it, and respond with a null success value.
    NeedsPreview { id: RequestId, path: String, component: Option<String> },
    /// Respond with a null result.
    RespondNull { id: RequestId },
    /// Respond with the synthesized actions (null when none).
    RespondCodeActions { id: RequestId, actions: Option<Vec<CommandAction>> },
}

/// The identifier an outcome answers.
pub open spec fn outcome_id(out: RequestOutcome) -> RequestId {
    match out {
        RequestOutcome::NeedsGotoDefinition { id, .. } => id,
        RequestOutcome::NeedsCompletion { id, .. } => id,
        RequestOutcome::NeedsPreview { id, .. } => id,
        RequestOutcome::RespondNull { id } => id,
        RequestOutcome::RespondCodeActions { id, .. } => id,
    }
}

/// The resolver's result for a position in the document loaded for
/// `uri`, if any.
pub open spec fn spec_cache_resolve(
    cache: DocumentCache,
    uri: Seq<char>,
    line: u32,
    character: u32,
) -> Option<ResolvedToken> {
    match spec_get_doc(cache.docs@, uri) {
        Some(d) => d.spec_resolve(line, character),
        None => None,
    }
}

/// Decides one request: resolution failures answer null, a hover always
/// answers null, a recognized show-preview command with a string first
/// argument asks for the preview, any other execute-command answers a
/// null success value — never a protocol error.
pub fn handle_request(cache: &DocumentCache, req: ClientRequest) -> (out: RequestOutcome)
    requires
        cache.wf(),
    ensures
        outcome_id(out) == request_id(req),
        req matches ClientRequest::GotoDefinition { id, uri, line, character } ==> (out == (
        match spec_cache_resolve(*cache, uri@, line, character) {
            Some(rt) => (RequestOutcome::NeedsGotoDefinition { id, token: rt }),
            None => (RequestOutcome::RespondNull { id }),
        })),
        req matches ClientRequest::Completion { id, uri, line, character } ==> (out == (
        match spec_cache_resolve(*cache, uri@, line, character) {
            Some(rt) => (RequestOutcome::NeedsCompletion { id, token: rt }),
            None => (RequestOutcome::RespondNull { id }),
        })),
        req matches ClientRequest::Hover { id } ==> (out == (RequestOutcome::RespondNull { id })),
        req matches ClientRequest::CodeAction { id, uri, line, character } ==> ((match
            spec_cache_resolve(*cache, uri@, line, character) {
            Some(rt) => (out matches RequestOutcome::RespondCodeActions { id: i2, actions }
                && (spec_get_doc(cache.docs@, uri@) matches Some(d) && code_actions_match(
                d,
                rt.token.parent as int,
                actions,
            ))),
            None => out == (RequestOutcome::RespondNull { id }),
        })),
        req matches ClientRequest::ExecuteCommand { id, command, arguments } ==> ({
            &&& ((out is NeedsPreview) <==> (command@ == "showPreview"@ && arguments@.len() >= 1
                && json_str_of(arguments@[0]) is Some))
            &&& (out matches RequestOutcome::NeedsPreview { path, component, .. } ==> (Some(
                path@,
            ) == json_str_of(arguments@[0]) && component_arg_matches(arguments@, component)))
            &&& (!(out is NeedsPreview) ==> out == (RequestOutcome::RespondNull { id }))
        }),
{
    match req {
        ClientRequest::GotoDefinition { id, uri, line, character } => {
            match cache.token_descr(&uri, line, character) {
                Some(token) => RequestOutcome::NeedsGotoDefinition { id, token },
                None => RequestOutcome::RespondNull { id },
            }
        },
        ClientRequest::Completion { id, uri, line, character } => {
            match cache.token_descr(&uri, line, character) {
                Some(token) => RequestOutcome::NeedsCompletion { id, token },
                None => RequestOutcome::RespondNull { id },
            }
        },
        ClientRequest::Hover { id } => RequestOutcome::RespondNull { id },
        ClientRequest::CodeAction { id, uri, line, character } => {
            match cache.token_descr(&uri, line, character) {
                Some(rt) => {
                    let doc = match cache.get_document(&uri) {
                        Some(d) => d,
                        None => {
                            proof {
                                assert(false);
                            }
                            return RequestOutcome::RespondNull { id };
                        },
                    };
                    let actions = get_code_actions(doc, rt.token.parent);
                    RequestOutcome::RespondCodeActions { id, actions }
                },
                None => RequestOutcome::RespondNull { id },
            }
        },
        ClientRequest::ExecuteCommand { id, command, arguments } => {
            if command.eq(&"showPreview".to_owned()) {
                match parse_show_preview_args(&arguments) {
                    Ok(args) => RequestOutcome::NeedsPreview {
                        id,
                        path: args.path,
                        component: args.component,
                    },
                    Err(CommandError::InvalidParameter) => RequestOutcome::RespondNull { id },
                }
            } else {
                RequestOutcome::RespondNull { id }
            }
        },
    }
}

/// One recognized inbound notification, already shaped into plain
/// values. A change notification carries the full new text of each
/// content change, in order.
#[derive(Debug)]
pub enum ClientNotification {
    DidOpen { uri: String, path: String, text: String },
    DidChange { uri: String, path: String, content_changes: Vec<String> },
    ShowPreview { arguments: Vec<serde_json::Value> },
    Other,
}

/// What a notification asks the loop to do: reload a document as a full
/// replacement, show a preview, or nothing. A notification never gets a
/// response.
#[derive(Debug)]
pub enum NotificationAction {
    Reload { uri: String, path: String, text: String },
    Preview { path: String, component: Option<String> },
    Ignore,
}

/// Decides one notification. An open reloads with the given text; a
/// change reloads with the text of the last content-change entry alone,
/// since documents are synchronized as full replacements; the custom
/// show-preview notification parses its arguments exactly as the
/// command does, and an argument error aborts it silently.
pub fn notification_action(n: ClientNotification) -> (a: NotificationAction)
    requires
        n matches ClientNotification::DidChange { content_changes, .. } ==> content_changes@.len()
            >= 1,
    ensures
        n matches ClientNotification::DidOpen { uri, path, text } ==> (a == (
        NotificationAction::Reload { uri, path, text })),
        n matches ClientNotification::DidChange { uri, path, content_changes } ==> (a == (
        NotificationAction::Reload { uri, path, text: content_changes@.last() })),
        n matches ClientNotification::ShowPreview { arguments } ==> ({
            &&& ((a is Preview) <==> (arguments@.len() >= 1 && json_str_of(arguments@[0])
                is Some))
            &&& (a matches NotificationAction::Preview { path, component } ==> (Some(path@)
                == json_str_of(arguments@[0]) && component_arg_matches(arguments@, component)))
            &&& (!(a is Preview) ==> a == NotificationAction::Ignore)
        }),
        n is Other ==> (a == NotificationAction::Ignore),
{
    match n {
        ClientNotification::DidOpen { uri, path, text } => NotificationAction::Reload {
            uri,
            path,
            text,
        },
        ClientNotification::DidChange { uri, path, mut content_changes } => {
            let text = match content_changes.pop() {
                Some(t) => t,
                None => {
                    proof {
                        assert(false);
                    }
                    return NotificationAction::Ignore;
                },
            };
            NotificationAction::Reload { uri, path, text }
        },
        ClientNotification::ShowPreview { arguments } => {
            match parse_show_preview_args(&arguments) {
                Ok(args) => NotificationAction::Preview {
                    path: args.path,
                    component: args.component,
                },
                Err(CommandError::InvalidParameter) => NotificationAction::Ignore,
            }
        },
        ClientNotification::Other => NotificationAction::Ignore,
    }
}

} // verus!
