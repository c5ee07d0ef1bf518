//! The document cache: one document per open URI, kept consistent with
//! editor edits by full replacement, and the reload path that recomputes
//! the line index, hands the new text to the renderer's content store,
//! and publishes the compile's translated diagnostics.

use vstd::prelude::*;
use vstd::string::StringSliceAdditionalSpecFns;
use vstd::pervasive::VecAdditionalExecFns;
use vstd::utf8::encode_utf8;
use crate::diag::{
    batch_wf, collect_diags_for, build_diagnostic_batch, diag_views, diags_for, DiagnosticsEntry,
    LspDiagnostic, SourceDiagnostic,
};
use crate::lines::{newline_offsets_from_content, spec_line_offsets};
use crate::preview::{reg_wf, TypeRegistry};
use crate::token::{spec_token_at, ResolvedToken, SyntaxTree};

verus! {

/// One open file: its URI, its filesystem path, its current text, the
/// text's line-offset index, the compiled syntax tree and local symbol
/// table when the last compile produced them, and the diagnostics last
/// published for it.
pub struct Document {
    pub uri: String,
    pub path: String,
    pub text: String,
    pub line_offsets: Vec<u32>,
    pub tree: Option<SyntaxTree>,
    pub registry: TypeRegistry,
    pub diagnostics: Vec<LspDiagnostic>,
}

impl Document {
    /// The document's compiled artifacts are well formed, and its
    /// line-offset index is the index of its text.
    pub open spec fn wf(&self) -> bool {
        &&& (self.tree matches Some(t) ==> t.wf())
        &&& reg_wf(self.registry)
        &&& self.line_offsets@ == spec_line_offsets(encode_utf8(self.text@))
    }

    /// The raw text offset that a protocol position denotes: the start
    /// of its line plus its column.
    pub open spec fn spec_raw_offset(&self, line: u32, character: u32) -> int {
        self.line_offsets@[line as int] + character
    }

    /// A position resolves iff its line exists, the document compiled,
    /// and the raw offset lies strictly inside the compiled range.
    pub open spec fn resolvable(&self, line: u32, character: u32) -> bool {
        &&& (line as int) < self.line_offsets@.len()
        &&& self.tree matches Some(t) && self.spec_raw_offset(line, character)
            < t.spec_end_offset()
    }

    /// The resolver's result for a position: the raw offset and the
    /// token the precedence rule picks there, or nothing when the
    /// position does not resolve.
    pub open spec fn spec_resolve(&self, line: u32, character: u32) -> Option<ResolvedToken> {
        if self.resolvable(line, character) {
            let o = self.spec_raw_offset(line, character) as u32;
            Some(
                ResolvedToken { token: spec_token_at(self.tree.unwrap().tokens@, o), offset: o },
            )
        } else {
            None
        }
    }

    /// Resolves a protocol position to the enclosing syntax token and
    /// the raw offset it denotes: defined iff the line exists and the
    /// raw offset lies inside the compiled range; the returned token's
    /// range contains that offset.
    pub fn resolve_position(&self, line: u32, character: u32) -> (r: Option<ResolvedToken>)
        requires
            self.wf(),
        ensures
            r == self.spec_resolve(line, character),
            r matches Some(rt) ==> {
                &&& rt.token.start <= rt.offset <= rt.token.end
                &&& self.tree matches Some(t) && exists|i: int|
                    0 <= i < t.tokens@.len() && t.tokens@[i] == rt.token
            },
    {
        if line as usize >= self.line_offsets.len() {
            return None;
        }
        let line_start: u32 = self.line_offsets[line as usize];
        let o64: u64 = line_start as u64 + character as u64;
        match &self.tree {
            None => None,
            Some(t) => {
                let end = t.end_offset();
                if o64 >= end as u64 {
                    return None;
                }
                let o: u32 = o64 as u32;
                let token = t.token_at_offset(o);
                Some(ResolvedToken { token, offset: o })
            },
        }
    }
}

/// Some cached document is keyed by `uri`.
pub open spec fn has_doc(docs: Seq<Document>, uri: Seq<char>) -> bool {
    exists|i: int| 0 <= i < docs.len() && (#[trigger] docs[i].uri@) == uri
}

/// Index of the document keyed by `uri`.
pub open spec fn doc_index(docs: Seq<Document>, uri: Seq<char>) -> int {
    choose|i: int| 0 <= i < docs.len() && (#[trigger] docs[i].uri@) == uri
}

/// The cached document for `uri`, if one was ever loaded.
pub open spec fn spec_get_doc(docs: Seq<Document>, uri: Seq<char>) -> Option<Document> {
    if has_doc(docs, uri) {
        Some(docs[doc_index(docs, uri)])
    } else {
        None
    }
}

/// Some cached document lies at filesystem path `path`.
pub open spec fn has_doc_path(docs: Seq<Document>, path: Seq<char>) -> bool {
    exists|i: int| 0 <= i < docs.len() && (#[trigger] docs[i].path@) == path
}

/// Index of the document at filesystem path `path`.
pub open spec fn doc_path_index(docs: Seq<Document>, path: Seq<char>) -> int {
    choose|i: int| 0 <= i < docs.len() && (#[trigger] docs[i].path@) == path
}

/// The cached document at filesystem path `path`, if any.
pub open spec fn spec_get_doc_by_path(docs: Seq<Document>, path: Seq<char>) -> Option<Document> {
    if has_doc_path(docs, path) {
        Some(docs[doc_path_index(docs, path)])
    } else {
        None
    }
}

/// The cache of open documents: at most one per URI (and per path,
/// since a URI denotes one path), owned and mutated by the protocol
/// loop alone. Documents are never evicted.
pub struct DocumentCache {
    pub docs: Vec<Document>,
}

impl DocumentCache {
    /// At most one document per URI and per filesystem path, each well
    /// formed.
    pub open spec fn wf(&self) -> bool {
        &&& forall|i: int, j: int|
            0 <= i < j < self.docs@.len() ==> (#[trigger] self.docs@[i].uri@) != (
            #[trigger] self.docs@[j].uri@)
        &&& forall|i: int, j: int|
            0 <= i < j < self.docs@.len() ==> (#[trigger] self.docs@[i].path@) != (
            #[trigger] self.docs@[j].path@)
        &&& forall|i: int| 0 <= i < self.docs@.len() ==> (#[trigger] self.docs@[i]).wf()
    }

    /// An empty cache: no document was loaded yet.
    pub fn new() -> (r: DocumentCache)
        ensures
            r.wf(),
            r.docs@.len() == 0,
    {
        DocumentCache { docs: Vec::new() }
    }

    /// The document loaded for `uri`, or none if the URI was never
    /// loaded.
    pub fn get_document(&self, uri: &String) -> (r: Option<&Document>)
        requires
            self.wf(),
        ensures
            match r {
                Some(d) => spec_get_doc(self.docs@, uri@) == Some(*d),
                None => spec_get_doc(self.docs@, uri@) is None,
            },
    {
        let n = self.docs.len();
        let mut i: usize = 0;
        while i < n
            invariant
                i <= n,
                n == self.docs@.len(),
                self.wf(),
                forall|j: int| 0 <= j < i ==> (#[trigger] self.docs@[j].uri@) != uri@,
            decreases n - i,
        {
            if self.docs[i].uri.eq(uri) {
                proof {
                    assert(has_doc(self.docs@, uri@));
                    let c = doc_index(self.docs@, uri@);
                    assert(self.docs@[c].uri@ == uri@);
                    assert(c == i as int);
                }
                return Some(&self.docs[i]);
            }
            i = i + 1;
        }
        assert(!has_doc(self.docs@, uri@));
        None
    }

    /// The document loaded at filesystem path `path`, or none.
    pub fn get_document_by_path(&self, path: &String) -> (r: Option<&Document>)
        requires
            self.wf(),
        ensures
            match r {
                Some(d) => spec_get_doc_by_path(self.docs@, path@) == Some(*d),
                None => spec_get_doc_by_path(self.docs@, path@) is None,
            },
    {
        let n = self.docs.len();
        let mut i: usize = 0;
        while i < n
            invariant
                i <= n,
                n == self.docs@.len(),
                self.wf(),
                forall|j: int| 0 <= j < i ==> (#[trigger] self.docs@[j].path@) != path@,
            decreases n - i,
        {
            if self.docs[i].path.eq(path) {
                proof {
                    assert(has_doc_path(self.docs@, path@));
                    let c = doc_path_index(self.docs@, path@);
                    assert(self.docs@[c].path@ == path@);
                    assert(c == i as int);
                }
                return Some(&self.docs[i]);
            }
            i = i + 1;
        }
        assert(!has_doc_path(self.docs@, path@));
        None
    }

    /// Resolves a position in the document loaded for `uri`: the token
    /// at the raw offset, or none when the URI was never loaded or the
    /// position does not resolve.
    pub fn token_descr(&self, uri: &String, line: u32, character: u32) -> (r: Option<
        ResolvedToken,
    >)
        requires
            self.wf(),
        ensures
            r == (match spec_get_doc(self.docs@, uri@) {
                Some(d) => d.spec_resolve(line, character),
                None => None::<ResolvedToken>,
            }),
            r matches Some(rt) ==> (spec_get_doc(self.docs@, uri@) matches Some(d) && {
                &&& rt.token.start <= rt.offset <= rt.token.end
                &&& d.tree matches Some(t) && exists|i: int|
                    0 <= i < t.tokens@.len() && t.tokens@[i] == rt.token
            }),
    {
        match self.get_document(uri) {
            None => None,
            Some(d) => {
                proof {
                    assert(spec_get_doc(self.docs@, uri@) matches Some(sd) && sd.wf());
                }
                d.resolve_position(line, character)
            },
        }
    }

    /// Loads `doc`, replacing any document with the same URI. No other
    /// document may already sit at `doc`'s path (a URI denotes one
    /// path).
    pub fn load_document(&mut self, doc: Document)
        requires
            old(self).wf(),
            doc.wf(),
            forall|i: int|
                0 <= i < old(self).docs@.len() ==> ((#[trigger] old(self).docs@[i].uri@)
                    != doc.uri@ ==> old(self).docs@[i].path@ != doc.path@),
        ensures
            final(self).wf(),
            spec_get_doc(final(self).docs@, doc.uri@) == Some(doc),
            spec_get_doc_by_path(final(self).docs@, doc.path@) == Some(doc),
            forall|u: Seq<char>|
                u != doc.uri@ ==> #[trigger] spec_get_doc(final(self).docs@, u) == spec_get_doc(
                    old(self).docs@,
                    u,
                ),
    {
        let ghost gdoc = doc;
        let ghost pre = self.docs@;
        let n = self.docs.len();
        let mut i: usize = 0;
        while i < n
            invariant
                i <= n,
                n == self.docs@.len(),
                self.wf(),
                self.docs@ == pre,
                pre == old(self).docs@,
                doc == gdoc,
                gdoc.wf(),
                forall|a: int|
                    0 <= a < pre.len() ==> ((#[trigger] pre[a].uri@) != gdoc.uri@ ==> pre[a].path@
                        != gdoc.path@),
                forall|j: int| 0 <= j < i ==> (#[trigger] self.docs@[j].uri@) != gdoc.uri@,
            decreases n - i,
        {
            if self.docs[i].uri.eq(&doc.uri) {
                self.docs.set(i, doc);
                proof {
                    lemma_after_update(pre, self.docs@, gdoc, i as int);
                }
                return ;
            }
            i = i + 1;
        }
        self.docs.push(doc);
        proof {
            lemma_after_push(pre, self.docs@, gdoc);
        }
    }
}

/// After replacing the document at `i`, which carried the new
/// document's URI, lookups find the new document under its URI and
/// path, and every other URI resolves as before.
proof fn lemma_after_update(pre: Seq<Document>, post: Seq<Document>, doc: Document, i: int)
    requires
        0 <= i < pre.len(),
        post == pre.update(i, doc),
        pre[i].uri@ == doc.uri@,
        doc.wf(),
        forall|a: int, b: int|
            0 <= a < b < pre.len() ==> (#[trigger] pre[a].uri@) != (#[trigger] pre[b].uri@),
        forall|a: int, b: int|
            0 <= a < b < pre.len() ==> (#[trigger] pre[a].path@) != (#[trigger] pre[b].path@),
        forall|a: int| 0 <= a < pre.len() ==> (#[trigger] pre[a]).wf(),
        forall|a: int|
            0 <= a < pre.len() ==> ((#[trigger] pre[a].uri@) != doc.uri@ ==> pre[a].path@
                != doc.path@),
    ensures
        forall|a: int, b: int|
            0 <= a < b < post.len() ==> (#[trigger] post[a].uri@) != (#[trigger] post[b].uri@),
        forall|a: int, b: int|
            0 <= a < b < post.len() ==> (#[trigger] post[a].path@) != (#[trigger] post[b].path@),
        forall|a: int| 0 <= a < post.len() ==> (#[trigger] post[a]).wf(),
        spec_get_doc(post, doc.uri@) == Some(doc),
        spec_get_doc_by_path(post, doc.path@) == Some(doc),
        forall|u: Seq<char>|
            u != doc.uri@ ==> #[trigger] spec_get_doc(post, u) == spec_get_doc(pre, u),
{
    assert(post.len() == pre.len());
    assert forall|a: int, b: int| 0 <= a < b < post.len() implies (#[trigger] post[a].uri@) != (
    #[trigger] post[b].uri@) by {
        assert(pre[a].uri@ != pre[b].uri@);
    }
    assert forall|a: int, b: int| 0 <= a < b < post.len() implies (#[trigger] post[a].path@) != (
    #[trigger] post[b].path@) by {
        if a == i {
            assert(pre[b].uri@ != doc.uri@);
        } else if b == i {
            assert(pre[a].uri@ != doc.uri@);
        }
    }
    assert(has_doc(post, doc.uri@)) by {
        assert(post[i].uri@ == doc.uri@);
    }
    let c = doc_index(post, doc.uri@);
    assert(post[c].uri@ == doc.uri@);
    assert(c == i);
    assert(has_doc_path(post, doc.path@)) by {
        assert(post[i].path@ == doc.path@);
    }
    let cp = doc_path_index(post, doc.path@);
    assert(post[cp].path@ == doc.path@);
    assert(cp == i);
    assert forall|u: Seq<char>| u != doc.uri@ implies #[trigger] spec_get_doc(post, u)
        == spec_get_doc(pre, u) by {
        assert(forall|a: int|
            0 <= a < post.len() ==> (#[trigger] post[a].uri@) == pre[a].uri@);
        if has_doc(post, u) {
            let e = doc_index(post, u);
            assert(post[e].uri@ == u);
            assert(has_doc(pre, u));
            let e2 = doc_index(pre, u);
            assert(pre[e2].uri@ == u);
            assert(e == e2);
            assert(e != i);
            assert(post[e] == pre[e]);
        } else {
            if has_doc(pre, u) {
                let e2 = doc_index(pre, u);
                assert(post[e2].uri@ == u);
                assert(false);
            }
        }
    }
}

/// After pushing a document under a fresh URI and path, lookups find it,
/// and every other URI resolves as before.
proof fn lemma_after_push(pre: Seq<Document>, post: Seq<Document>, doc: Document)
    requires
        post == pre.push(doc),
        doc.wf(),
        forall|a: int| 0 <= a < pre.len() ==> (#[trigger] pre[a].uri@) != doc.uri@,
        forall|a: int, b: int|
            0 <= a < b < pre.len() ==> (#[trigger] pre[a].uri@) != (#[trigger] pre[b].uri@),
        forall|a: int, b: int|
            0 <= a < b < pre.len() ==> (#[trigger] pre[a].path@) != (#[trigger] pre[b].path@),
        forall|a: int| 0 <= a < pre.len() ==> (#[trigger] pre[a]).wf(),
        forall|a: int|
            0 <= a < pre.len() ==> ((#[trigger] pre[a].uri@) != doc.uri@ ==> pre[a].path@
                != doc.path@),
    ensures
        forall|a: int, b: int|
            0 <= a < b < post.len() ==> (#[trigger] post[a].uri@) != (#[trigger] post[b].uri@),
        forall|a: int, b: int|
            0 <= a < b < post.len() ==> (#[trigger] post[a].path@) != (#[trigger] post[b].path@),
        forall|a: int| 0 <= a < post.len() ==> (#[trigger] post[a]).wf(),
        spec_get_doc(post, doc.uri@) == Some(doc),
        spec_get_doc_by_path(post, doc.path@) == Some(doc),
        forall|u: Seq<char>|
            u != doc.uri@ ==> #[trigger] spec_get_doc(post, u) == spec_get_doc(pre, u),
{
    let last = pre.len() as int;
    assert(post[last] == doc);
    assert forall|a: int, b: int| 0 <= a < b < post.len() implies (#[trigger] post[a].uri@) != (
    #[trigger] post[b].uri@) by {
        if b == last {
            assert(pre[a].uri@ != doc.uri@);
        } else {
            assert(pre[a].uri@ != pre[b].uri@);
        }
    }
    assert forall|a: int, b: int| 0 <= a < b < post.len() implies (#[trigger] post[a].path@) != (
    #[trigger] post[b].path@) by {
        if b == last {
            assert(pre[a].uri@ != doc.uri@);
            assert(pre[a].path@ != doc.path@);
        } else {
            assert(pre[a].path@ != pre[b].path@);
        }
    }
    assert(has_doc(post, doc.uri@)) by {
        assert(post[last].uri@ == doc.uri@);
    }
    let c = doc_index(post, doc.uri@);
    assert(post[c].uri@ == doc.uri@);
    assert(c == last);
    assert(has_doc_path(post, doc.path@)) by {
        assert(post[last].path@ == doc.path@);
    }
    let cp = doc_path_index(post, doc.path@);
    assert(post[cp].path@ == doc.path@);
    assert(cp == last);
    assert forall|u: Seq<char>| u != doc.uri@ implies #[trigger] spec_get_doc(post, u)
        == spec_get_doc(pre, u) by {
        if has_doc(post, u) {
            let e = doc_index(post, u);
            assert(post[e].uri@ == u);
            assert(e != last);
            assert(pre[e].uri@ == u);
            assert(has_doc(pre, u));
            let e2 = doc_index(pre, u);
            assert(e == e2);
        } else {
            if has_doc(pre, u) {
                let e2 = doc_index(pre, u);
                assert(post[e2].uri@ == u);
                assert(false);
            }
        }
    }
}

/// Everything one compile returns: the syntax tree when one could be
/// produced, the document's local symbol table, every file the compile
/// transitively loaded (absolute paths), and the full diagnostic batch.
pub struct CompileResult {
    pub tree: Option<SyntaxTree>,
    pub registry: TypeRegistry,
    pub loaded_files: Vec<String>,
    pub diagnostics: Vec<SourceDiagnostic>,
}

impl CompileResult {
    /// The compile's artifacts are well formed.
    pub open spec fn wf(&self) -> bool {
        &&& (self.tree matches Some(t) ==> t.wf())
        &&& reg_wf(self.registry)
    }
}

/// The document the cache holds right after a reload: the new text, its
/// recomputed line index, the compile's tree and symbol table, and the
/// diagnostics published for the document's own path.
pub open spec fn is_reloaded_doc(
    d: Document,
    uri: Seq<char>,
    path: Seq<char>,
    text: Seq<char>,
    compile: CompileResult,
) -> bool {
    &&& d.uri@ == uri
    &&& d.path@ == path
    &&& d.text@ == text
    &&& d.line_offsets@ == spec_line_offsets(encode_utf8(text))
    &&& d.tree == compile.tree
    &&& d.registry == compile.registry
    &&& diag_views(d.diagnostics@) == diags_for(compile.diagnostics@, path)
}

/// Reloads one document as a full replacement: recomputes the line
/// index, replaces the cache entry for `uri`, and returns the
/// publication batch, which carries an entry for the reloaded file
/// first and one for every other file the compile touched. The content
/// push for the renderer precedes the compile and is prepared
/// separately.
pub fn reload_document(
    cache: &mut DocumentCache,
    uri: String,
    path: String,
    text: String,
    compile: CompileResult,
) -> (publishes: Vec<DiagnosticsEntry>)
    requires
        old(cache).wf(),
        compile.wf(),
        encode_utf8(text@).len() < u32::MAX,
        forall|i: int|
            0 <= i < old(cache).docs@.len() ==> ((#[trigger] old(cache).docs@[i].uri@) != uri@
                ==> old(cache).docs@[i].path@ != path@),
    ensures
        final(cache).wf(),
        spec_get_doc(final(cache).docs@, uri@) matches Some(d) && is_reloaded_doc(
            d,
            uri@,
            path@,
            text@,
            compile,
        ),
        forall|u: Seq<char>|
            u != uri@ ==> #[trigger] spec_get_doc(final(cache).docs@, u) == spec_get_doc(
                old(cache).docs@,
                u,
            ),
        batch_wf(publishes@, path@, compile.loaded_files@, compile.diagnostics@),
{
    let line_offsets = newline_offsets_from_content(text.as_str());
    let publishes = build_diagnostic_batch(&path, &compile.loaded_files, &compile.diagnostics);
    let own_diags = collect_diags_for(&compile.diagnostics, &path);
    let doc = Document {
        uri,
        path,
        text,
        line_offsets,
        tree: compile.tree,
        registry: compile.registry,
        diagnostics: own_diags,
    };
    cache.load_document(doc);
    publishes
}

/// Reloading is idempotent in the document it leaves behind: two
/// reloads of the same text with the same compile output yield the same
/// line-offset table and the same published diagnostics, whatever the
/// caches held before.
pub proof fn lemma_reload_idempotent(
    d1: Document,
    d2: Document,
    uri: Seq<char>,
    path: Seq<char>,
    text: Seq<char>,
    compile: CompileResult,
)
    requires
        is_reloaded_doc(d1, uri, path, text, compile),
        is_reloaded_doc(d2, uri, path, text, compile),
    ensures
        d1.line_offsets@ == d2.line_offsets@,
        diag_views(d1.diagnostics@) == diag_views(d2.diagnostics@),
        d1.text@ == d2.text@,
{
}

} // verus!
