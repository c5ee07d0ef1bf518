//! The code-action synthesizer: from the syntax node enclosing a
//! resolved token, walk a small fixed set of syntax shapes to an
//! enclosing named component and offer one show-preview action for it.

use vstd::prelude::*;
use crate::document::Document;
use crate::token::{NodeKind, SyntaxNodeRec};

verus! {

/// A synthesized protocol command: its title, the command name, and its
/// positional string arguments.
#[derive(Clone, Debug)]
pub struct CommandAction {
    pub title: String,
    pub command: String,
    pub arguments: Vec<String>,
}

/// The component declaration that node `n` offers a preview for: the
/// node itself when it is a component; its parent when `n` is the
/// component's declared identifier; its grandparent when `n` is a
/// qualified type reference inside the component's root element.
pub open spec fn spec_enclosing_component(nodes: Seq<SyntaxNodeRec>, n: int) -> Option<int> {
    if nodes[n].kind == NodeKind::Component {
        Some(n)
    } else if nodes[n].kind == NodeKind::DeclaredIdentifier && (nodes[n].parent matches Some(p)
        && nodes[p as int].kind == NodeKind::Component) {
        Some(nodes[n].parent.unwrap() as int)
    } else if nodes[n].kind == NodeKind::QualifiedName && (nodes[n].parent matches Some(p)
        && nodes[p as int].kind == NodeKind::Element && (nodes[p as int].parent matches Some(g)
        && nodes[g as int].kind == NodeKind::Component)) {
        Some(nodes[nodes[n].parent.unwrap() as int].parent.unwrap() as int)
    } else {
        None
    }
}

/// The actions offered at node `n` of `doc`'s tree: exactly one
/// show-preview command, carrying the document's path and the component
/// name, when an enclosing component with a non-empty declared name
/// exists; none otherwise.
pub open spec fn code_actions_match(
    doc: Document,
    n: int,
    r: Option<Vec<CommandAction>>,
) -> bool {
    &&& (doc.tree matches Some(t) ==> (match spec_enclosing_component(t.nodes@, n) {
        Some(c) => (match t.nodes@[c].declared_name {
            Some(name) => if name@.len() > 0 {
                r matches Some(v) && {
                    &&& v@.len() == 1
                    &&& v@[0].title@ == "Show preview"@
                    &&& v@[0].command@ == "showPreview"@
                    &&& v@[0].arguments@.len() == 2
                    &&& v@[0].arguments@[0]@ == doc.path@
                    &&& v@[0].arguments@[1]@ == name@
                }
            } else {
                r is None
            },
            None => r is None,
        }),
        None => r is None,
    }))
    &&& (doc.tree is None ==> r is None)
}

/// Offers the show-preview action for the component enclosing node `n`,
/// when the walk finds one with a non-empty declared name.
pub fn get_code_actions(doc: &Document, n: usize) -> (r: Option<Vec<CommandAction>>)
    requires
        doc.wf(),
        doc.tree matches Some(t) ==> (n as int) < t.nodes@.len(),
    ensures
        code_actions_match(*doc, n as int, r),
{
    let t = match &doc.tree {
        None => {
            return None;
        },
        Some(t) => t,
    };
    let node = &t.nodes[n];
    let component_idx: usize;
    if matches!(node.kind, NodeKind::Component) {
        component_idx = n;
    } else if matches!(node.kind, NodeKind::DeclaredIdentifier) {
        let p = match node.parent {
            Some(p) => p,
            None => {
                return None;
            },
        };
        if matches!(t.nodes[p].kind, NodeKind::Component) {
            component_idx = p;
        } else {
            return None;
        }
    } else if matches!(node.kind, NodeKind::QualifiedName) {
        let p = match node.parent {
            Some(p) => p,
            None => {
                return None;
            },
        };
        if !matches!(t.nodes[p].kind, NodeKind::Element) {
            return None;
        }
        let g = match t.nodes[p].parent {
            Some(g) => g,
            None => {
                return None;
            },
        };
        if matches!(t.nodes[g].kind, NodeKind::Component) {
            component_idx = g;
        } else {
            return None;
        }
    } else {
        return None;
    }
    let name: String = match &t.nodes[component_idx].declared_name {
        Some(name) => name.clone(),
        None => {
            return None;
        },
    };
    if name.as_str().is_empty() {
        return None;
    }
    let mut arguments: Vec<String> = Vec::new();
    arguments.push(doc.path.clone());
    arguments.push(name);
    Some(
        vec![
            CommandAction {
                title: "Show preview".to_owned(),
                command: "showPreview".to_owned(),
                arguments,
            },
        ],
    )
}

} // verus!
