//! Translation of a compile's diagnostic batch into per-file,
//! protocol-shaped diagnostic publications.
//!
//! Every file a compile loaded receives an entry, empty when the file is
//! clean, so the client clears stale markers. A diagnostic whose recorded
//! source path is not absolute is internal and is never published.
//! Compiler positions are 1-based and are clamped down to the protocol's
//! 0-based axes; the published range is zero-width.

use vstd::prelude::*;

verus! {

/// Severity of a compiler-reported diagnostic.
#[derive(Clone, Copy, PartialEq, Eq, Structural, Debug)]
pub enum DiagnosticLevel {
    Error,
    Warning,
}

/// Severity of a protocol diagnostic.
#[derive(Clone, Copy, PartialEq, Eq, Structural, Debug)]
pub enum DiagnosticSeverity {
    Error,
    Warning,
}

/// A protocol position: zero-based line and column.
#[derive(Clone, Copy, PartialEq, Eq, Structural, Debug)]
pub struct LspPosition {
    pub line: u32,
    pub character: u32,
}

/// A protocol range; the translator only emits zero-width ones.
#[derive(Clone, Copy, PartialEq, Eq, Structural, Debug)]
pub struct LspRange {
    pub start: LspPosition,
    pub end: LspPosition,
}

/// A diagnostic as the compiler reports it: the file it belongs to,
/// whether that recorded path is absolute, a 1-based line and column,
/// a severity, and a message.
#[derive(Clone, Debug)]
pub struct SourceDiagnostic {
    pub path: String,
    pub path_is_absolute: bool,
    pub line: u32,
    pub column: u32,
    pub level: DiagnosticLevel,
    pub message: String,
}

/// A diagnostic in protocol shape.
#[derive(Clone, Debug)]
pub struct LspDiagnostic {
    pub range: LspRange,
    pub severity: DiagnosticSeverity,
    pub message: String,
}

/// Mathematical value of a protocol diagnostic.
pub ghost struct LspDiagnosticV {
    pub range: LspRange,
    pub severity: DiagnosticSeverity,
    pub message: Seq<char>,
}

impl View for LspDiagnostic {
    type V = LspDiagnosticV;

    open spec fn view(&self) -> LspDiagnosticV {
        LspDiagnosticV { range: self.range, severity: self.severity, message: self.message@ }
    }
}

/// Maps a compiler severity to the protocol severity, one-to-one.
pub open spec fn spec_to_lsp_diag_level(level: DiagnosticLevel) -> DiagnosticSeverity {
    match level {
        DiagnosticLevel::Error => DiagnosticSeverity::Error,
        DiagnosticLevel::Warning => DiagnosticSeverity::Warning,
    }
}

/// Maps a compiler severity to the protocol severity, one-to-one.
pub fn to_lsp_diag_level(level: DiagnosticLevel) -> (r: DiagnosticSeverity)
    ensures
        r == spec_to_lsp_diag_level(level),
{
    match level {
        DiagnosticLevel::Error => DiagnosticSeverity::Error,
        DiagnosticLevel::Warning => DiagnosticSeverity::Warning,
    }
}

/// A 1-based axis moved to the protocol's 0-based one, clamped at zero.
pub open spec fn spec_zero_based(x: u32) -> u32 {
    if x == 0 {
        0u32
    } else {
        (x - 1) as u32
    }
}

/// Converts a compiler span's 1-based (line, column) into a zero-width
/// protocol range, subtracting one from each axis and clamping at zero.
pub fn to_range(span: (u32, u32)) -> (r: LspRange)
    ensures
        r.start == r.end,
        r.start.line == spec_zero_based(span.0),
        r.start.character == spec_zero_based(span.1),
{
    let line: u32 = if span.0 == 0 {
        0
    } else {
        span.0 - 1
    };
    let character: u32 = if span.1 == 0 {
        0
    } else {
        span.1 - 1
    };
    let pos = LspPosition { line, character };
    LspRange { start: pos, end: pos }
}

/// The protocol shape of one compiler diagnostic.
pub open spec fn spec_to_lsp_diag(d: SourceDiagnostic) -> LspDiagnosticV {
    LspDiagnosticV {
        range: LspRange {
            start: LspPosition {
                line: spec_zero_based(d.line),
                character: spec_zero_based(d.column),
            },
            end: LspPosition {
                line: spec_zero_based(d.line),
                character: spec_zero_based(d.column),
            },
        },
        severity: spec_to_lsp_diag_level(d.level),
        message: d.message@,
    }
}

/// Translates one compiler diagnostic into protocol shape.
pub fn to_lsp_diag(d: &SourceDiagnostic) -> (r: LspDiagnostic)
    ensures
        r@ == spec_to_lsp_diag(*d),
{
    LspDiagnostic {
        range: to_range((d.line, d.column)),
        severity: to_lsp_diag_level(d.level),
        message: d.message.clone(),
    }
}

/// Views of a sequence of protocol diagnostics.
pub open spec fn diag_views(v: Seq<LspDiagnostic>) -> Seq<LspDiagnosticV> {
    Seq::new(v.len(), |i: int| v[i]@)
}

/// The protocol diagnostics published for `path`: the diagnostics whose
/// recorded absolute path is `path`, translated, in input order.
pub open spec fn diags_for(ds: Seq<SourceDiagnostic>, path: Seq<char>) -> Seq<LspDiagnosticV>
    decreases ds.len(),
{
    if ds.len() == 0 {
        Seq::empty()
    } else {
        let rest = diags_for(ds.drop_last(), path);
        let d = ds.last();
        if d.path_is_absolute && d.path@ == path {
            rest.push(spec_to_lsp_diag(d))
        } else {
            rest
        }
    }
}

/// A relative-path diagnostic is never part of any published sequence:
/// everything in `diags_for` stems from a diagnostic whose recorded path
/// is absolute (and is `path` itself).
pub proof fn lemma_no_relative_paths(ds: Seq<SourceDiagnostic>, path: Seq<char>, m: int)
    requires
        0 <= m < diags_for(ds, path).len(),
    ensures
        exists|j: int|
            0 <= j < ds.len() && (#[trigger] ds[j]).path_is_absolute && ds[j].path@ == path
                && diags_for(ds, path)[m] == spec_to_lsp_diag(ds[j]),
    decreases ds.len(),
{
    let d = ds.last();
    if d.path_is_absolute && d.path@ == path && m == diags_for(ds, path).len() - 1 {
        assert(ds[ds.len() - 1] == d);
    } else {
        lemma_no_relative_paths(ds.drop_last(), path, m);
        let j = choose|j: int|
            0 <= j < ds.drop_last().len() && (#[trigger] ds.drop_last()[j]).path_is_absolute
                && ds.drop_last()[j].path@ == path && diags_for(ds.drop_last(), path)[m]
                == spec_to_lsp_diag(ds.drop_last()[j]);
        assert(ds[j] == ds.drop_last()[j]);
    }
}

/// One publication entry: a file's path and the (possibly empty) ordered
/// diagnostics published for it.
#[derive(Clone, Debug)]
pub struct DiagnosticsEntry {
    pub path: String,
    pub diagnostics: Vec<LspDiagnostic>,
}

/// A path receives an entry in the batch: it was the reloaded file, a
/// file the compile loaded, or the absolute path of some diagnostic.
pub open spec fn key_expected(
    k: Seq<char>,
    trigger: Seq<char>,
    loaded: Seq<String>,
    ds: Seq<SourceDiagnostic>,
) -> bool {
    ||| k == trigger
    ||| exists|i: int| 0 <= i < loaded.len() && (#[trigger] loaded[i])@ == k
    ||| exists|j: int| 0 <= j < ds.len() && (#[trigger] ds[j]).path_is_absolute && ds[j].path@ == k
}

/// The full shape of a publication batch for a reload of `trigger`:
/// the first entry is the reloaded file's; paths are pairwise distinct;
/// exactly the expected paths appear; and each entry carries exactly the
/// translated diagnostics recorded for its path.
pub open spec fn batch_wf(
    batch: Seq<DiagnosticsEntry>,
    trigger: Seq<char>,
    loaded: Seq<String>,
    ds: Seq<SourceDiagnostic>,
) -> bool {
    &&& batch.len() > 0 && batch[0].path@ == trigger
    &&& forall|i: int, j: int|
        0 <= i < j < batch.len() ==> (#[trigger] batch[i].path@) != (#[trigger] batch[j].path@)
    &&& forall|e: int|
        0 <= e < batch.len() ==> key_expected((#[trigger] batch[e].path@), trigger, loaded, ds)
    &&& forall|k: Seq<char>|
        key_expected(k, trigger, loaded, ds) ==> exists|e: int|
            0 <= e < batch.len() && (#[trigger] batch[e].path@) == k
    &&& forall|e: int|
        0 <= e < batch.len() ==> diag_views((#[trigger] batch[e].diagnostics@)) == diags_for(
            ds,
            batch[e].path@,
        )
}

/// Some entry of the batch is keyed by `k`.
pub open spec fn batch_has(batch: Seq<DiagnosticsEntry>, k: Seq<char>) -> bool {
    exists|e: int| 0 <= e < batch.len() && (#[trigger] batch[e].path@) == k
}

/// Index of the batch entry keyed by `k`.
pub open spec fn batch_entry_index(batch: Seq<DiagnosticsEntry>, k: Seq<char>) -> int {
    choose|e: int| 0 <= e < batch.len() && (#[trigger] batch[e].path@) == k
}

/// The diagnostics a batch publishes for `k`, if it carries an entry
/// for `k` at all.
pub open spec fn batch_lookup(batch: Seq<DiagnosticsEntry>, k: Seq<char>) -> Option<
    Seq<LspDiagnosticV>,
> {
    if batch_has(batch, k) {
        Some(diag_views(batch[batch_entry_index(batch, k)].diagnostics@))
    } else {
        None
    }
}

/// A well-formed batch is pinned down: it publishes for `k` exactly
/// when `k` is an expected path, and then exactly the diagnostics
/// recorded for `k`.
pub proof fn lemma_batch_lookup_characterized(
    batch: Seq<DiagnosticsEntry>,
    trigger: Seq<char>,
    loaded: Seq<String>,
    ds: Seq<SourceDiagnostic>,
    k: Seq<char>,
)
    requires
        batch_wf(batch, trigger, loaded, ds),
    ensures
        batch_lookup(batch, k) == (if key_expected(k, trigger, loaded, ds) {
            Some(diags_for(ds, k))
        } else {
            None::<Seq<LspDiagnosticV>>
        }),
{
    if key_expected(k, trigger, loaded, ds) {
        let e = choose|e: int| 0 <= e < batch.len() && (#[trigger] batch[e].path@) == k;
        assert(batch_has(batch, k));
        let i = batch_entry_index(batch, k);
        assert(batch[i].path@ == k);
        assert(diag_views(batch[i].diagnostics@) == diags_for(ds, k));
    } else {
        if batch_has(batch, k) {
            let i = batch_entry_index(batch, k);
            assert(batch[i].path@ == k);
            assert(key_expected(batch[i].path@, trigger, loaded, ds));
            assert(false);
        }
    }
}

/// Publishing is deterministic: two reloads of the same file with the
/// same loaded files and the same diagnostics publish for every path
/// the same diagnostics — whatever order their batches list the files
/// in.
pub proof fn lemma_batch_deterministic(
    b1: Seq<DiagnosticsEntry>,
    b2: Seq<DiagnosticsEntry>,
    trigger: Seq<char>,
    loaded: Seq<String>,
    ds: Seq<SourceDiagnostic>,
    k: Seq<char>,
)
    requires
        batch_wf(b1, trigger, loaded, ds),
        batch_wf(b2, trigger, loaded, ds),
    ensures
        batch_lookup(b1, k) == batch_lookup(b2, k),
{
    lemma_batch_lookup_characterized(b1, trigger, loaded, ds, k);
    lemma_batch_lookup_characterized(b2, trigger, loaded, ds, k);
}

/// No entry of a well-formed batch holds a diagnostic of a
/// relative-path source: every published diagnostic stems from an
/// input diagnostic whose recorded path is absolute.
pub proof fn lemma_batch_no_relative(
    batch: Seq<DiagnosticsEntry>,
    trigger: Seq<char>,
    loaded: Seq<String>,
    ds: Seq<SourceDiagnostic>,
    e: int,
    m: int,
)
    requires
        batch_wf(batch, trigger, loaded, ds),
        0 <= e < batch.len(),
        0 <= m < batch[e].diagnostics@.len(),
    ensures
        exists|j: int|
            0 <= j < ds.len() && (#[trigger] ds[j]).path_is_absolute && ds[j].path@
                == batch[e].path@ && batch[e].diagnostics@[m]@ == spec_to_lsp_diag(ds[j]),
{
    assert(diag_views(batch[e].diagnostics@) == diags_for(ds, batch[e].path@));
    assert(diag_views(batch[e].diagnostics@)[m] == batch[e].diagnostics@[m]@);
    lemma_no_relative_paths(ds, batch[e].path@, m);
}

/// True iff some string in `v` reads `x`.
fn contains_string(v: &Vec<String>, x: &String) -> (r: bool)
    ensures
        r == exists|i: int| 0 <= i < v@.len() && (#[trigger] v@[i])@ == x@,
{
    let n = v.len();
    let mut i: usize = 0;
    while i < n
        invariant
            i <= n,
            n == v@.len(),
            forall|j: int| 0 <= j < i ==> (#[trigger] v@[j])@ != x@,
        decreases n - i,
    {
        if v[i].eq(x) {
            return true;
        }
        i = i + 1;
    }
    false
}

/// Collects, in input order, the translated diagnostics recorded for
/// `path` under an absolute path.
pub fn collect_diags_for(ds: &Vec<SourceDiagnostic>, path: &String) -> (v: Vec<LspDiagnostic>)
    ensures
        diag_views(v@) == diags_for(ds@, path@),
{
    let n = ds.len();
    let mut v: Vec<LspDiagnostic> = Vec::new();
    assert(diag_views(v@) =~= diags_for(ds@.take(0), path@));
    let mut m: usize = 0;
    while m < n
        invariant
            m <= n,
            n == ds@.len(),
            diag_views(v@) == diags_for(ds@.take(m as int), path@),
        decreases n - m,
    {
        let d = &ds[m];
        if d.path_is_absolute && d.path.eq(path) {
            let ghost pre = v@;
            let lsp = to_lsp_diag(d);
            v.push(lsp);
            proof {
                assert(diag_views(v@) =~= diag_views(pre).push(lsp@));
            }
        }
        proof {
            let full = ds@.take(m as int + 1);
            assert(full.drop_last() =~= ds@.take(m as int));
            assert(full.last() == ds@[m as int]);
            assert(diag_views(v@) =~= diags_for(full, path@));
        }
        m = m + 1;
    }
    proof {
        assert(ds@.take(n as int) =~= ds@);
    }
    v
}

/// Builds the publication batch for one reload: an entry for the
/// reloaded file first, then one for every other file the compile
/// loaded and for every other absolute diagnostic path, each carrying
/// exactly the translated diagnostics recorded for it.
pub fn build_diagnostic_batch(
    trigger_path: &String,
    loaded_files: &Vec<String>,
    diagnostics: &Vec<SourceDiagnostic>,
) -> (batch: Vec<DiagnosticsEntry>)
    ensures
        batch_wf(batch@, trigger_path@, loaded_files@, diagnostics@),
{
    let mut keys: Vec<String> = Vec::new();
    keys.push(trigger_path.clone());
    let nl = loaded_files.len();
    let mut i: usize = 0;
    while i < nl
        invariant
            i <= nl,
            nl == loaded_files@.len(),
            keys@.len() > 0 && keys@[0]@ == trigger_path@,
            forall|a: int, b: int|
                0 <= a < b < keys@.len() ==> (#[trigger] keys@[a]@) != (#[trigger] keys@[b]@),
            forall|a: int|
                0 <= a < keys@.len() ==> key_expected(
                    (#[trigger] keys@[a]@),
                    trigger_path@,
                    loaded_files@,
                    diagnostics@,
                ),
            forall|j: int|
                #![trigger loaded_files@[j]]
                0 <= j < i ==> exists|a: int|
                    0 <= a < keys@.len() && (#[trigger] keys@[a]@) == loaded_files@[j]@,
        decreases nl - i,
    {
        if !contains_string(&keys, &loaded_files[i]) {
            let ghost pre = keys@;
            keys.push(loaded_files[i].clone());
            proof {
                assert(keys@[keys@.len() - 1]@ == loaded_files@[i as int]@);
                assert forall|j2: int|
                    #![trigger loaded_files@[j2]]
                    0 <= j2 < i implies exists|a: int|
                    0 <= a < keys@.len() && (#[trigger] keys@[a]@) == loaded_files@[j2]@ by {
                    let a = choose|a: int|
                        0 <= a < pre.len() && (#[trigger] pre[a]@) == loaded_files@[j2]@;
                    assert(keys@[a]@ == loaded_files@[j2]@);
                }
            }
        }
        i = i + 1;
    }
    let nd = diagnostics.len();
    let mut j: usize = 0;
    while j < nd
        invariant
            j <= nd,
            nd == diagnostics@.len(),
            keys@.len() > 0 && keys@[0]@ == trigger_path@,
            forall|a: int, b: int|
                0 <= a < b < keys@.len() ==> (#[trigger] keys@[a]@) != (#[trigger] keys@[b]@),
            forall|a: int|
                0 <= a < keys@.len() ==> key_expected(
                    (#[trigger] keys@[a]@),
                    trigger_path@,
                    loaded_files@,
                    diagnostics@,
                ),
            forall|k: int|
                #![trigger loaded_files@[k]]
                0 <= k < loaded_files@.len() ==> exists|a: int|
                    0 <= a < keys@.len() && (#[trigger] keys@[a]@) == loaded_files@[k]@,
            forall|k: int|
                0 <= k < j && (#[trigger] diagnostics@[k]).path_is_absolute ==> exists|a: int|
                    0 <= a < keys@.len() && (#[trigger] keys@[a]@) == diagnostics@[k].path@,
        decreases nd - j,
    {
        if diagnostics[j].path_is_absolute {
            if !contains_string(&keys, &diagnostics[j].path) {
                let ghost pre = keys@;
                keys.push(diagnostics[j].path.clone());
                proof {
                    assert(keys@[keys@.len() - 1]@ == diagnostics@[j as int].path@);
                    assert forall|k2: int|
                        #![trigger loaded_files@[k2]]
                        0 <= k2 < loaded_files@.len() implies exists|a: int|
                        0 <= a < keys@.len() && (#[trigger] keys@[a]@) == loaded_files@[k2]@ by {
                        let a = choose|a: int|
                            0 <= a < pre.len() && (#[trigger] pre[a]@) == loaded_files@[k2]@;
                        assert(keys@[a]@ == loaded_files@[k2]@);
                    }
                    assert forall|k2: int|
                        0 <= k2 < j && (#[trigger] diagnostics@[k2]).path_is_absolute implies exists|
                            a: int,
                        |
                        0 <= a < keys@.len() && (#[trigger] keys@[a]@) == diagnostics@[k2].path@ by {
                        let a = choose|a: int|
                            0 <= a < pre.len() && (#[trigger] pre[a]@) == diagnostics@[k2].path@;
                        assert(keys@[a]@ == diagnostics@[k2].path@);
                    }
                }
            }
        }
        j = j + 1;
    }
    let nk = keys.len();
    let mut batch: Vec<DiagnosticsEntry> = Vec::new();
    let mut e: usize = 0;
    while e < nk
        invariant
            e <= nk,
            nk == keys@.len(),
            batch@.len() == e,
            forall|a: int| 0 <= a < e ==> (#[trigger] batch@[a].path@) == keys@[a]@,
            forall|a: int|
                0 <= a < e ==> diag_views((#[trigger] batch@[a].diagnostics@)) == diags_for(
                    diagnostics@,
                    batch@[a].path@,
                ),
        decreases nk - e,
    {
        let path = keys[e].clone();
        let ds = collect_diags_for(diagnostics, &path);
        batch.push(DiagnosticsEntry { path, diagnostics: ds });
        e = e + 1;
    }
    proof {
        assert forall|k: Seq<char>|
            key_expected(k, trigger_path@, loaded_files@, diagnostics@) implies exists|e2: int|
            0 <= e2 < batch@.len() && (#[trigger] batch@[e2].path@) == k by {
            if k == trigger_path@ {
                assert(batch@[0].path@ == k);
            } else if exists|i2: int|
                0 <= i2 < loaded_files@.len() && (#[trigger] loaded_files@[i2])@ == k {
                let i2 = choose|i2: int|
                    0 <= i2 < loaded_files@.len() && (#[trigger] loaded_files@[i2])@ == k;
                let a = choose|a: int|
                    0 <= a < keys@.len() && (#[trigger] keys@[a]@) == loaded_files@[i2]@;
                assert(batch@[a].path@ == k);
            } else {
                let j2 = choose|j2: int|
                    0 <= j2 < diagnostics@.len() && (#[trigger] diagnostics@[j2]).path_is_absolute
                        && diagnostics@[j2].path@ == k;
                let a = choose|a: int|
                    0 <= a < keys@.len() && (#[trigger] keys@[a]@) == diagnostics@[j2].path@;
                assert(batch@[a].path@ == k);
            }
        }
    }
    batch
}

} // verus!
