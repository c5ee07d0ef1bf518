//! The preview bridge's decision logic: parsing the show-preview
//! command's positional arguments, resolving a named component's
//! base-type chain in a document's local type registry, and building the
//! load instruction handed to the renderer's execution context.

use vstd::prelude::*;
use crate::document::{spec_get_doc_by_path, DocumentCache};

verus! {

/// Verus handle for `serde_json::Value`, so command arguments can run
/// through verified code; the value itself stays opaque.
#[verifier::external_type_specification]
#[verifier::external_body]
pub struct ExValue(serde_json::Value);

/// The string a JSON value holds, if it is a string value: the result
/// of `serde_json::Value::as_str`, a function of the value alone.
pub uninterp spec fn json_str_of(v: serde_json::Value) -> Option<Seq<char>>;

/// Relies on `serde_json::Value::as_str`: the borrowed string of a JSON
/// string value, or none for any other kind of value; which of the two
/// depends on the value alone.
pub assume_specification<'a>[ serde_json::Value::as_str ](v: &'a serde_json::Value) -> (r: Option<
    &'a str,
>)
    ensures
        (r matches Some(s) ==> json_str_of(*v) == Some(s@)),
        (r is None ==> json_str_of(*v) is None),
;

/// A type, as the base-type chain walk reads it: a locally declared
/// component (an index into the registry's component table), a builtin
/// type with its name, or anything a lookup could not resolve.
#[derive(Clone, Debug)]
pub enum Ty {
    Component { comp: usize },
    Builtin { name: String },
    Invalid,
}

/// A locally declared component: its name and the type it derives from.
#[derive(Clone, Debug)]
pub struct ComponentRec {
    pub name: String,
    pub base: Ty,
}

/// A document's local symbol table: its declared components and the
/// builtin type names in scope. Names are unique across both tables.
#[derive(Clone, Debug)]
pub struct TypeRegistry {
    pub components: Vec<ComponentRec>,
    pub builtins: Vec<String>,
}

/// The registry's names are pairwise distinct (it models a map keyed by
/// name), and its component table leaves room for a walk bound.
pub open spec fn reg_wf(reg: TypeRegistry) -> bool {
    &&& reg.components@.len() < usize::MAX
    &&& forall|i: int, j: int|
        0 <= i < j < reg.components@.len() ==> (#[trigger] reg.components@[i].name@) != (
        #[trigger] reg.components@[j].name@)
    &&& forall|i: int, j: int|
        0 <= i < j < reg.builtins@.len() ==> (#[trigger] reg.builtins@[i]@) != (
        #[trigger] reg.builtins@[j]@)
    &&& forall|i: int, j: int|
        0 <= i < reg.components@.len() && 0 <= j < reg.builtins@.len() ==> (
        #[trigger] reg.components@[i].name@) != (#[trigger] reg.builtins@[j]@)
}

/// Some component in the registry is declared under `name`.
pub open spec fn has_component(reg: TypeRegistry, name: Seq<char>) -> bool {
    exists|i: int| 0 <= i < reg.components@.len() && (#[trigger] reg.components@[i].name@) == name
}

/// Index of the component declared under `name`.
pub open spec fn component_index(reg: TypeRegistry, name: Seq<char>) -> int {
    choose|i: int| 0 <= i < reg.components@.len() && (#[trigger] reg.components@[i].name@) == name
}

/// Some builtin type in the registry bears `name`.
pub open spec fn has_builtin(reg: TypeRegistry, name: Seq<char>) -> bool {
    exists|i: int| 0 <= i < reg.builtins@.len() && (#[trigger] reg.builtins@[i]@) == name
}

/// Index of the builtin type named `name`.
pub open spec fn builtin_index(reg: TypeRegistry, name: Seq<char>) -> int {
    choose|i: int| 0 <= i < reg.builtins@.len() && (#[trigger] reg.builtins@[i]@) == name
}

/// What looking `name` up in the registry yields: the declared
/// component, else the builtin of that name, else an unresolved type.
pub open spec fn spec_lookup(reg: TypeRegistry, name: Seq<char>) -> Ty {
    if has_component(reg, name) {
        Ty::Component { comp: component_index(reg, name) as usize }
    } else if has_builtin(reg, name) {
        Ty::Builtin { name: reg.builtins@[builtin_index(reg, name)] }
    } else {
        Ty::Invalid
    }
}

/// Where a base-type chain of at most `fuel` steps from `ty` ends: the
/// first non-component type reached. A dangling component reference, or
/// a chain longer than `fuel` (a cycle, given the walk's bound), ends
/// like a failed lookup.
pub open spec fn chain_terminal(reg: TypeRegistry, ty: Ty, fuel: nat) -> Ty
    decreases fuel,
{
    match ty {
        Ty::Component { comp } => {
            if fuel == 0 {
                Ty::Invalid
            } else if comp < reg.components@.len() {
                chain_terminal(reg, reg.components@[comp as int].base, (fuel - 1) as nat)
            } else {
                Ty::Invalid
            }
        },
        _ => ty,
    }
}

/// The terminal type of a base-type chain frames the preview as a
/// window iff it is the builtin type named `Window`.
pub open spec fn is_window_terminal(t: Ty) -> bool {
    t matches Ty::Builtin { name } && name@ == "Window"@
}

/// The component named `name` frames the preview as a window: its
/// base-type chain ends at the builtin type named `Window`. Any lookup
/// failure along the chain yields false, never an error.
pub open spec fn spec_is_window(reg: TypeRegistry, name: Seq<char>) -> bool {
    is_window_terminal(
        chain_terminal(reg, spec_lookup(reg, name), (reg.components@.len() + 1) as nat),
    )
}

/// One step of the chain walk, as the definition takes it: a spent
/// bound or a dangling reference ends the chain like a failed lookup;
/// otherwise the walk moves to the component's base.
proof fn lemma_chain_unfold(reg: TypeRegistry, comp: usize, fuel: nat)
    ensures
        fuel == 0 ==> chain_terminal(reg, Ty::Component { comp }, fuel) == Ty::Invalid,
        fuel > 0 && comp >= reg.components@.len() ==> chain_terminal(
            reg,
            Ty::Component { comp },
            fuel,
        ) == Ty::Invalid,
        fuel > 0 && comp < reg.components@.len() ==> chain_terminal(
            reg,
            Ty::Component { comp },
            fuel,
        ) == chain_terminal(reg, reg.components@[comp as int].base, (fuel - 1) as nat),
{
}

/// A non-component type is its own chain terminal.
proof fn lemma_chain_fixed(reg: TypeRegistry, ty: Ty, fuel: nat)
    requires
        !(ty matches Ty::Component { .. }),
    ensures
        chain_terminal(reg, ty, fuel) == ty,
{
}

impl TypeRegistry {
    /// Looks `name` up: the declared component of that name, else the
    /// builtin of that name, else an unresolved type.
    pub fn lookup(&self, name: &String) -> (t: Ty)
        requires
            reg_wf(*self),
        ensures
            t == spec_lookup(*self, name@),
    {
        let nc = self.components.len();
        let mut i: usize = 0;
        while i < nc
            invariant
                i <= nc,
                nc == self.components@.len(),
                reg_wf(*self),
                forall|j: int| 0 <= j < i ==> (#[trigger] self.components@[j].name@) != name@,
            decreases nc - i,
        {
            if self.components[i].name.eq(name) {
                proof {
                    assert(has_component(*self, name@));
                    let c = component_index(*self, name@);
                    assert(self.components@[c].name@ == name@);
                    assert(c == i as int);
                }
                return Ty::Component { comp: i };
            }
            i = i + 1;
        }
        assert(!has_component(*self, name@));
        let nb = self.builtins.len();
        let mut k: usize = 0;
        while k < nb
            invariant
                k <= nb,
                nb == self.builtins@.len(),
                reg_wf(*self),
                !has_component(*self, name@),
                forall|j: int| 0 <= j < k ==> (#[trigger] self.builtins@[j]@) != name@,
            decreases nb - k,
        {
            if self.builtins[k].eq(name) {
                proof {
                    assert(has_builtin(*self, name@));
                    let c = builtin_index(*self, name@);
                    assert(self.builtins@[c]@ == name@);
                    assert(c == k as int);
                }
                return Ty::Builtin { name: self.builtins[k].clone() };
            }
            k = k + 1;
        }
        assert(!has_builtin(*self, name@));
        Ty::Invalid
    }

    /// Decides whether the component named `name` frames the preview as
    /// a window, walking its base-type chain to the terminal type.
    pub fn is_window(&self, name: &String) -> (b: bool)
        requires
            reg_wf(*self),
        ensures
            b == spec_is_window(*self, name@),
    {
        let start = self.lookup(name);
        let mut cur: usize;
        match start {
            Ty::Component { comp } => {
                cur = comp;
            },
            Ty::Builtin { name: n } => {
                proof {
                    lemma_chain_fixed(
                        *self,
                        spec_lookup(*self, name@),
                        (self.components@.len() + 1) as nat,
                    );
                }
                return n.eq(&"Window".to_owned());
            },
            Ty::Invalid => {
                proof {
                    lemma_chain_fixed(
                        *self,
                        spec_lookup(*self, name@),
                        (self.components@.len() + 1) as nat,
                    );
                }
                return false;
            },
        }
        let mut fuel: usize = self.components.len() + 1;
        loop
            invariant
                reg_wf(*self),
                spec_is_window(*self, name@) == is_window_terminal(
                    chain_terminal(*self, Ty::Component { comp: cur }, fuel as nat),
                ),
            decreases fuel,
        {
            proof {
                lemma_chain_unfold(*self, cur, fuel as nat);
            }
            if fuel == 0 {
                return false;
            }
            if cur >= self.components.len() {
                return false;
            }
            match &self.components[cur].base {
                Ty::Component { comp: c2 } => {
                    cur = *c2;
                    fuel = fuel - 1;
                },
                Ty::Builtin { name: n } => {
                    proof {
                        lemma_chain_fixed(
                            *self,
                            self.components@[cur as int].base,
                            (fuel - 1) as nat,
                        );
                    }
                    return n.eq(&"Window".to_owned());
                },
                Ty::Invalid => {
                    proof {
                        lemma_chain_fixed(
                            *self,
                            self.components@[cur as int].base,
                            (fuel - 1) as nat,
                        );
                    }
                    return false;
                },
            }
        }
    }
}

/// Why a show-preview command was abandoned: a missing or non-string
/// positional argument.
#[derive(Clone, Copy, PartialEq, Eq, Structural, Debug)]
pub enum CommandError {
    InvalidParameter,
}

/// The show-preview command's parsed positional arguments: the file to
/// preview and, optionally, the component to show.
#[derive(Clone, Debug)]
pub struct ShowPreviewArgs {
    pub path: String,
    pub component: Option<String>,
}

/// The optional component argument was read as the command reads it:
/// the second argument's string when there is one and it is a string,
/// else nothing.
pub open spec fn component_arg_matches(
    args: Seq<serde_json::Value>,
    component: Option<String>,
) -> bool {
    if args.len() >= 2 && json_str_of(args[1]) is Some {
        component matches Some(c) && Some(c@) == json_str_of(args[1])
    } else {
        component is None
    }
}

/// Parses the show-preview command's positional arguments: the first
/// must be a string (the file's path); a second string, if any, names
/// the component. Anything else is an invalid-parameter condition, which
/// aborts the command but never the session.
pub fn parse_show_preview_args(params: &Vec<serde_json::Value>) -> (r: Result<
    ShowPreviewArgs,
    CommandError,
>)
    ensures
        (r is Ok) <==> (params@.len() >= 1 && json_str_of(params@[0]) is Some),
        r matches Ok(a) ==> (Some(a.path@) == json_str_of(params@[0]) && component_arg_matches(
            params@,
            a.component,
        )),
        r matches Err(e) ==> e == CommandError::InvalidParameter,
{
    if params.len() == 0 {
        return Err(CommandError::InvalidParameter);
    }
    let path: String = match params[0].as_str() {
        Some(s) => s.to_owned(),
        None => {
            return Err(CommandError::InvalidParameter);
        },
    };
    let component: Option<String> = if params.len() >= 2 {
        match params[1].as_str() {
            Some(s) => Some(s.to_owned()),
            None => None,
        }
    } else {
        None
    };
    Ok(ShowPreviewArgs { path, component })
}

/// The instruction that hands a reloaded document's text to the
/// renderer's private content store, keyed by the canonical path when
/// canonicalization succeeded, else by the literal path.
#[derive(Clone, Debug)]
pub struct ContentPush {
    pub path: String,
    pub text: String,
}

/// Builds the content push for one reload; it is handed to the renderer
/// before the compile is driven, so the renderer's store never lags the
/// editor.
pub fn prepare_content_push(path: &String, canon_path: &Option<String>, text: &String) -> (push:
    ContentPush)
    ensures
        push.path@ == (match *canon_path {
            Some(c) => c@,
            None => path@,
        }),
        push.text@ == text@,
{
    let push_path = match canon_path {
        Some(c) => c.clone(),
        None => path.clone(),
    };
    ContentPush { path: push_path, text: text.clone() }
}

/// What a loaded preview does once ready: it is shown immediately.
#[derive(Clone, Copy, PartialEq, Eq, Structural, Debug)]
pub enum PostLoadBehavior {
    ShowAfterLoad,
}

/// The component a preview instruction names: the file to load, the
/// component to show (or the document's last one when absent), and
/// whether it frames as a window.
#[derive(Clone, Debug)]
pub struct PreviewComponent {
    pub path: String,
    pub component: Option<String>,
    pub is_window: bool,
}

/// One instruction enqueued to the renderer's execution context.
#[derive(Clone, Debug)]
pub struct LoadPreviewCommand {
    pub component: PreviewComponent,
    pub behavior: PostLoadBehavior,
}

/// Builds the preview-load instruction for parsed show-preview
/// arguments: the canonical path when canonicalization succeeded, else
/// the literal path; and `is_window` resolved through the base-type
/// chain of the named component in the already-loaded document at the
/// literal path — any failure along the way yields false, not an error.
pub fn build_preview_load(
    cache: &DocumentCache,
    path: String,
    canon_path: Option<String>,
    component: Option<String>,
) -> (cmd: LoadPreviewCommand)
    requires
        cache.wf(),
    ensures
        cmd.behavior == PostLoadBehavior::ShowAfterLoad,
        cmd.component.path@ == (match canon_path {
            Some(c) => c@,
            None => path@,
        }),
        cmd.component.component == component,
        cmd.component.is_window == (match component {
            Some(c) => (match spec_get_doc_by_path(cache.docs@, path@) {
                Some(d) => spec_is_window(d.registry, c@),
                None => false,
            }),
            None => false,
        }),
{
    let is_window: bool = match &component {
        Some(c) => {
            match cache.get_document_by_path(&path) {
                Some(d) => d.registry.is_window(c),
                None => false,
            }
        },
        None => false,
    };
    let final_path = match canon_path {
        Some(c) => c,
        None => path,
    };
    LoadPreviewCommand {
        component: PreviewComponent { path: final_path, component, is_window },
        behavior: PostLoadBehavior::ShowAfterLoad,
    }
}

} // verus!
