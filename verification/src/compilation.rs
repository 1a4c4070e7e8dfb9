//! One build pass and all that it produced: the module graph, the chunk
//! graph, the chunks and their groups, the generated code and the assets.

use vstd::prelude::*;
use vstd::string::StringExecFns;
use crate::chunk::{Chunk, ChunkGroup, ChunkGroupUkey, ChunkGroupView, ChunkUkey, ChunkView};
use crate::chunk_graph::{ChunkGraph, ChunkGraphView};
use crate::error::{Diagnostic, Error, Severity};
use crate::error::ErrorView;
use crate::module::{
    CodeGenerationResult, DependencyKind, Module, ModuleIdentifier, ModuleView, SourceType,
};
use crate::module_graph::{ModuleGraph, ModuleGraphView};
use crate::runtime::{runtime_union, RuntimeSpec};
use crate::text::str_eq;
use crate::text_map::{lookup, put, unique_keys, TextMap};

verus! {

/// Flags that travel with an asset.
#[derive(Clone, Copy, Debug, PartialEq, Eq, Structural)]
pub struct AssetInfo {
    /// The asset was minimized.
    pub minimized: bool,
    /// The asset serves development only.
    pub development: bool,
    /// The asset is a hot-module-replacement update, not an ordinary output.
    pub hot_module_replacement: bool,
}

impl AssetInfo {
    /// No flag set.
    pub open spec fn plain() -> AssetInfo {
        AssetInfo { minimized: false, development: false, hot_module_replacement: false }
    }

    /// The same flags, with the minimized flag as given.
    pub fn with_minimized(self, minimized: bool) -> (info: Self)
        ensures
            info == (AssetInfo { minimized, ..self }),
    {
        AssetInfo { minimized, ..self }
    }

    /// The same flags, with the development flag as given.
    pub fn with_development(self, development: bool) -> (info: Self)
        ensures
            info == (AssetInfo { development, ..self }),
    {
        AssetInfo { development, ..self }
    }

    /// The same flags, with the hot-module-replacement flag as given.
    pub fn with_hot_module_replacement(self, hot_module_replacement: bool) -> (info: Self)
        ensures
            info == (AssetInfo { hot_module_replacement, ..self }),
    {
        AssetInfo { hot_module_replacement, ..self }
    }
}

impl Default for AssetInfo {
    fn default() -> (info: Self)
        ensures
            info == AssetInfo::plain(),
    {
        AssetInfo { minimized: false, development: false, hot_module_replacement: false }
    }
}

/// An emitted output: its content and its flags.
#[derive(Debug)]
pub struct CompilationAsset {
    pub source: String,
    pub info: AssetInfo,
}

/// An asset as a mathematical value.
pub struct AssetView {
    pub source: Seq<char>,
    pub info: AssetInfo,
}

impl View for CompilationAsset {
    type V = AssetView;

    open spec fn view(&self) -> AssetView {
        AssetView { source: self.source@, info: self.info }
    }
}

impl CompilationAsset {
    /// An asset of the given content and flags.
    pub fn new(source: String, info: AssetInfo) -> (asset: Self)
        ensures
            asset@ == (AssetView { source: source@, info }),
    {
        CompilationAsset { source, info }
    }
}

/// How far a compilation has come. The phases follow one another in the
/// order of the variants; `Aborted` is where a failed phase leaves it.
#[derive(Clone, Copy, Debug, PartialEq, Eq, Structural, Hash)]
pub enum CompilationState {
    Created,
    ThisCompilationHookRun,
    CompilationHookRun,
    Compiling,
    ChunkGraphBuilt,
    Rendered,
    Sealed,
    Aborted,
}

impl CompilationState {
    /// The state that the next successful phase leads to: none after the
    /// last phase, and none once a phase has failed.
    pub open spec fn successor(self) -> Option<CompilationState> {
        match self {
            CompilationState::Created => Some(CompilationState::ThisCompilationHookRun),
            CompilationState::ThisCompilationHookRun => Some(CompilationState::CompilationHookRun),
            CompilationState::CompilationHookRun => Some(CompilationState::Compiling),
            CompilationState::Compiling => Some(CompilationState::ChunkGraphBuilt),
            CompilationState::ChunkGraphBuilt => Some(CompilationState::Rendered),
            CompilationState::Rendered => Some(CompilationState::Sealed),
            CompilationState::Sealed => None,
            CompilationState::Aborted => None,
        }
    }

    /// How many phases have succeeded in this state.
    pub open spec fn phases_done(self) -> nat {
        match self {
            CompilationState::Created => 0,
            CompilationState::ThisCompilationHookRun => 1,
            CompilationState::CompilationHookRun => 2,
            CompilationState::Compiling => 3,
            CompilationState::ChunkGraphBuilt => 4,
            CompilationState::Rendered => 5,
            CompilationState::Sealed => 6,
            CompilationState::Aborted => 0,
        }
    }

    /// The state after one more phase ended with `ok`: the successor where
    /// the phase succeeded, `Aborted` where it failed, and the state itself
    /// where no phase was left to run.
    pub open spec fn after_phase(self, ok: bool) -> CompilationState {
        match self.successor() {
            None => self,
            Some(next) => if ok {
                next
            } else {
                CompilationState::Aborted
            },
        }
    }

    /// The state that the next successful phase leads to.
    pub fn next(self) -> (n: Option<CompilationState>)
        ensures
            n == self.successor(),
    {
        match self {
            CompilationState::Created => Some(CompilationState::ThisCompilationHookRun),
            CompilationState::ThisCompilationHookRun => Some(CompilationState::CompilationHookRun),
            CompilationState::CompilationHookRun => Some(CompilationState::Compiling),
            CompilationState::Compiling => Some(CompilationState::ChunkGraphBuilt),
            CompilationState::ChunkGraphBuilt => Some(CompilationState::Rendered),
            CompilationState::Rendered => Some(CompilationState::Sealed),
            CompilationState::Sealed => None,
            CompilationState::Aborted => None,
        }
    }
}

/// Each successful phase moves a compilation exactly one step on: no phase
/// is skipped and none runs twice.
pub proof fn lemma_phases_in_order(state: CompilationState)
    ensures
        state.successor() matches Some(next) ==> next.phases_done() == state.phases_done() + 1,
        state.after_phase(false) == CompilationState::Aborted || state.after_phase(false) == state,
        CompilationState::Aborted.after_phase(true) == CompilationState::Aborted,
        CompilationState::Sealed.after_phase(true) == CompilationState::Sealed,
{
}

/// The runtime tags of the chunk group `group` among `chunk_groups`: none
/// where there is no such group, or it has no runtime.
pub open spec fn group_tags(chunk_groups: Seq<ChunkGroupView>, group: ChunkGroupUkey) -> Seq<
    Seq<char>,
> {
    if group < chunk_groups.len() {
        chunk_groups[group as int].runtime_tags()
    } else {
        Seq::empty()
    }
}

/// The union of the runtimes of the first `count` of the groups `groups`.
pub open spec fn groups_runtime(
    chunk_groups: Seq<ChunkGroupView>,
    groups: Seq<ChunkGroupUkey>,
    count: int,
) -> Seq<Seq<char>>
    decreases count,
{
    if count <= 0 || count > groups.len() {
        Seq::empty()
    } else {
        runtime_union(
            groups_runtime(chunk_groups, groups, count - 1),
            group_tags(chunk_groups, groups[count - 1]),
        )
    }
}

/// The union of some groups' runtimes goes by the tags of those groups alone.
pub proof fn lemma_groups_runtime_stable(
    before: Seq<ChunkGroupView>,
    after: Seq<ChunkGroupView>,
    groups: Seq<ChunkGroupUkey>,
    count: int,
)
    requires
        0 <= count <= groups.len(),
        forall|k: int|
            0 <= k < count ==> group_tags(before, #[trigger] groups[k]) == group_tags(
                after,
                groups[k],
            ),
    ensures
        groups_runtime(before, groups, count) == groups_runtime(after, groups, count),
    decreases count,
{
    if count > 0 {
        lemma_groups_runtime_stable(before, after, groups, count - 1);
    }
}

/// A tag is in a union of two runtime lists exactly when it is in one of them.
pub proof fn lemma_union_contains(a: Seq<Seq<char>>, b: Seq<Seq<char>>, t: Seq<char>)
    ensures
        runtime_union(a, b).contains(t) <==> (a.contains(t) || b.contains(t)),
{
    crate::runtime::lemma_runtime_arithmetic_sets(a, b);
    assert(runtime_union(a, b).to_set().contains(t) <==> a.to_set().union(b.to_set()).contains(t));
}

/// A union with a list that adds nothing new is the list that was there.
pub proof fn lemma_union_absorbs(a: Seq<Seq<char>>, b: Seq<Seq<char>>)
    requires
        forall|i: int| 0 <= i < b.len() ==> a.contains(#[trigger] b[i]),
    ensures
        runtime_union(a, b) == a,
{
    crate::text::lemma_filter_none(b, |t: Seq<char>| !a.contains(t));
    assert(a + Seq::<Seq<char>>::empty() =~= a);
}

/// The union of some groups' runtimes holds every tag of each of the groups.
pub proof fn lemma_groups_runtime_holds(
    chunk_groups: Seq<ChunkGroupView>,
    groups: Seq<ChunkGroupUkey>,
    count: int,
    k: int,
    t: Seq<char>,
)
    requires
        0 <= k < count <= groups.len(),
        group_tags(chunk_groups, groups[k]).contains(t),
    ensures
        groups_runtime(chunk_groups, groups, count).contains(t),
    decreases count,
{
    lemma_union_contains(
        groups_runtime(chunk_groups, groups, count - 1),
        group_tags(chunk_groups, groups[count - 1]),
        t,
    );
    if k < count - 1 {
        lemma_groups_runtime_holds(chunk_groups, groups, count - 1, k, t);
    }
}

/// A compilation as a mathematical value.
pub struct CompilationView {
    pub module_graph: ModuleGraphView,
    pub chunk_graph: ChunkGraphView,
    /// The chunks; a chunk's key is its position.
    pub chunks: Seq<ChunkView>,
    /// The chunk groups; a group's key is its position.
    pub chunk_groups: Seq<ChunkGroupView>,
    /// The entrypoints: name and chunk group, in the order in which they were added.
    pub entrypoints: Seq<(Seq<char>, ChunkGroupUkey)>,
    /// The generated code that was put by per module: identifier, then output
    /// kind and text.
    pub code_generation_results: Seq<(Seq<char>, Seq<(SourceType, Seq<char>)>)>,
    /// The assets: file name and asset, in the order in which the names first came.
    pub assets: Seq<(Seq<char>, AssetView)>,
    pub state: CompilationState,
    /// The diagnostics collected so far, oldest first.
    pub diagnostics: Seq<(Severity, Seq<char>, Seq<char>)>,
}

impl CompilationView {
    /// Whether the chunk at position `i` is a lasting chunk of the id `id`.
    pub open spec fn is_persistent_chunk(self, i: int, id: Seq<char>) -> bool {
        0 <= i < self.chunks.len() && self.chunks[i].persistent() && self.chunks[i].id == id
    }

    /// The lasting chunk of the id `id`, if there is one.
    pub open spec fn find_chunk(self, id: Seq<char>) -> Option<ChunkUkey> {
        if exists|i: int| self.is_persistent_chunk(i, id) {
            Some((choose|i: int| self.is_persistent_chunk(i, id)) as usize)
        } else {
            None
        }
    }

    /// The runtime tags of the chunk group `group`: none where there is no
    /// such group, or it has no runtime.
    pub open spec fn group_runtime(self, group: ChunkGroupUkey) -> Seq<Seq<char>> {
        group_tags(self.chunk_groups, group)
    }

    /// Whether every module of the module graph belongs to some chunk.
    pub open spec fn every_module_has_chunk(self) -> bool {
        forall|i: int|
            0 <= i < self.module_graph.modules.len() ==> self.chunk_graph.chunks_of(
                (#[trigger] self.module_graph.modules[i]).identifier,
            ).len() > 0
    }

    /// Whether the compilation is about to be sealed while a module still
    /// belongs to no chunk.
    pub open spec fn seals_badly(self) -> bool {
        self.state == CompilationState::Rendered && !self.every_module_has_chunk()
    }

    /// The state after one more phase ended with `ok`. The phase that seals
    /// the compilation fails of itself where a module belongs to no chunk.
    pub open spec fn after_phase(self, ok: bool) -> CompilationState {
        if ok && self.seals_badly() {
            CompilationState::Aborted
        } else {
            self.state.after_phase(ok)
        }
    }

    /// Whether the compilation is sealed: built to the end, and no longer
    /// open to new modules or new memberships of chunks in groups.
    pub open spec fn sealed(self) -> bool {
        self.state == CompilationState::Sealed
    }

    /// The union of the runtimes of the first `count` entrypoints' groups.
    pub open spec fn entry_runtime_of(self, count: nat) -> Seq<Seq<char>>
        decreases count,
    {
        if count == 0 || count > self.entrypoints.len() {
            Seq::empty()
        } else {
            runtime_union(
                self.entry_runtime_of((count - 1) as nat),
                self.group_runtime(self.entrypoints[count - 1].1),
            )
        }
    }

    /// The union of the runtimes of all entrypoints' groups.
    pub open spec fn entry_runtime(self) -> Seq<Seq<char>> {
        self.entry_runtime_of(self.entrypoints.len())
    }

    /// The invariant of a compilation.
    pub open spec fn wf(self) -> bool {
        &&& self.module_graph.wf()
        &&& self.chunk_graph.wf()
        &&& self.chunk_graph.chunks == Seq::new(self.chunks.len(), |i: int| i as usize)
        &&& forall|i: int|
            0 <= i < self.chunks.len() ==> (#[trigger] self.chunks[i]).wf() && self.chunks[i].ukey
                == i
        &&& forall|i: int|
            0 <= i < self.chunk_groups.len() ==> (#[trigger] self.chunk_groups[i]).wf()
                && self.chunk_groups[i].ukey == i
        &&& forall|i: int, j: int|
            0 <= i < j < self.chunks.len() && self.chunks[i].persistent()
                && self.chunks[j].persistent() ==> self.chunks[i].id != self.chunks[j].id
        &&& forall|i: int, k: int|
            0 <= i < self.chunks.len() && 0 <= k < self.chunks[i].groups.len()
                ==> #[trigger] self.chunks[i].groups[k] < self.chunk_groups.len()
        &&& forall|i: int|
            0 <= i < self.chunks.len() && self.chunks[i].persistent() ==> (
            #[trigger] self.chunks[i]).runtime == groups_runtime(
                self.chunk_groups,
                self.chunks[i].groups,
                self.chunks[i].groups.len() as int,
            )
        &&& self.sealed() ==> self.every_module_has_chunk()
        &&& unique_keys(self.entrypoints)
        &&& unique_keys(self.code_generation_results)
        &&& unique_keys(self.assets)
    }

    /// The compilation that a build starts from.
    pub open spec fn fresh() -> Self {
        CompilationView {
            module_graph: ModuleGraphView::empty(),
            chunk_graph: ChunkGraphView::empty(),
            chunks: Seq::empty(),
            chunk_groups: Seq::empty(),
            entrypoints: Seq::empty(),
            code_generation_results: Seq::empty(),
            assets: Seq::empty(),
            state: CompilationState::Created,
            diagnostics: Seq::empty(),
        }
    }

    /// Whether a chunk like `chunk` can join the compilation. A lasting
    /// chunk needs an id that no lasting chunk has yet, and comes without
    /// groups or runtime, which it gets by joining groups. Any chunk names
    /// only groups that the compilation has.
    pub open spec fn admits(self, chunk: ChunkView) -> bool {
        &&& chunk.persistent() ==> self.find_chunk(chunk.id) is None && chunk.runtime.len() == 0
            && chunk.groups.len() == 0
        &&& forall|k: int|
            0 <= k < chunk.groups.len() ==> #[trigger] chunk.groups[k] < self.chunk_groups.len()
    }

    /// The compilation after `module` was to be added on behalf of `issuer`:
    /// a sealed compilation takes no module.
    pub open spec fn add_module(self, module: ModuleView, issuer: Option<Seq<char>>) -> Self {
        if self.sealed() {
            self
        } else {
            CompilationView { module_graph: self.module_graph.add_module(module, issuer), ..self }
        }
    }

    /// The compilation after it took `chunk` in, under the next free key.
    pub open spec fn add_chunk(self, chunk: ChunkView) -> Self {
        CompilationView {
            chunks: self.chunks.push(ChunkView { ukey: self.chunks.len() as usize, ..chunk }),
            chunk_graph: self.chunk_graph.add_chunk(self.chunks.len() as usize),
            ..self
        }
    }

    /// The compilation after it took `group` in, under the next free key.
    pub open spec fn add_chunk_group(self, group: ChunkGroupView) -> Self {
        CompilationView {
            chunk_groups: self.chunk_groups.push(
                ChunkGroupView { ukey: self.chunk_groups.len() as usize, ..group },
            ),
            ..self
        }
    }

    /// Whether the chunk `chunk` can join the group `group`: both are
    /// there, and the compilation is not sealed.
    pub open spec fn can_join(self, chunk: ChunkUkey, group: ChunkGroupUkey) -> bool {
        chunk < self.chunks.len() && group < self.chunk_groups.len() && !self.sealed()
    }

    /// The compilation after the chunk `chunk` joined the group `group`: the
    /// group lists the chunk, the chunk lists the group, and the chunk's
    /// runtime has grown by the group's. Nothing changes where the chunk
    /// cannot join the group.
    pub open spec fn join(self, chunk: ChunkUkey, group: ChunkGroupUkey) -> Self {
        if self.can_join(chunk, group) {
            let c = self.chunks[chunk as int];
            let g = self.chunk_groups[group as int];
            CompilationView {
                chunks: self.chunks.update(
                    chunk as int,
                    ChunkView {
                        runtime: runtime_union(c.runtime, g.runtime_tags()),
                        ..c.add_group(group)
                    },
                ),
                chunk_groups: self.chunk_groups.update(
                    group as int,
                    ChunkGroupView {
                        chunks: if g.chunks.contains(chunk) {
                            g.chunks
                        } else {
                            g.chunks.push(chunk)
                        },
                        ..g
                    },
                ),
                ..self
            }
        } else {
            self
        }
    }
}

/// What a build reports once it is over: the assets by name, with their
/// flags, and the diagnostics.
#[derive(Debug)]
pub struct Stats {
    pub assets: Vec<StatsAsset>,
    pub diagnostics: Vec<Diagnostic>,
}

/// One asset in a build's report.
#[derive(Debug)]
pub struct StatsAsset {
    pub name: String,
    pub size: usize,
    pub info: AssetInfo,
}

impl View for StatsAsset {
    type V = (Seq<char>, usize, AssetInfo);

    open spec fn view(&self) -> (Seq<char>, usize, AssetInfo) {
        (self.name@, self.size, self.info)
    }
}

impl Stats {
    /// The assets of the report: name, size and flags, in the compilation's order.
    pub open spec fn asset_list(&self) -> Seq<(Seq<char>, usize, AssetInfo)> {
        self.assets@.map_values(|a: StatsAsset| a@)
    }

    /// The diagnostics of the report, oldest first.
    pub open spec fn diagnostic_list(&self) -> Seq<(Severity, Seq<char>, Seq<char>)> {
        self.diagnostics@.map_values(|d: Diagnostic| d@)
    }
}

/// What a report lists of each asset, in order: the name, the size, which
/// is the number of bytes of the content in UTF-8, and the flags.
pub open spec fn asset_summary(assets: Seq<(Seq<char>, AssetView)>) -> Seq<
    (Seq<char>, usize, AssetInfo),
> {
    assets.map_values(
        |a: (Seq<char>, AssetView)|
            (a.0, vstd::utf8::encode_utf8(a.1.source).len() as usize, a.1.info),
    )
}

/// One complete build result.
pub struct Compilation {
    pub(crate) module_graph: ModuleGraph,
    pub(crate) chunk_graph: ChunkGraph,
    pub(crate) chunk_by_ukey: Vec<Chunk>,
    pub(crate) chunk_group_by_ukey: Vec<ChunkGroup>,
    pub(crate) entrypoints: TextMap<ChunkGroupUkey>,
    pub(crate) code_generation_results: TextMap<CodeGenerationResult>,
    pub(crate) assets: TextMap<CompilationAsset>,
    pub(crate) state: CompilationState,
    pub(crate) diagnostics: Vec<Diagnostic>,
}

impl View for Compilation {
    type V = CompilationView;

    open(crate) spec fn view(&self) -> CompilationView {
        CompilationView {
            module_graph: self.module_graph@,
            chunk_graph: self.chunk_graph@,
            chunks: self.chunk_by_ukey@.map_values(|c: Chunk| c@),
            chunk_groups: self.chunk_group_by_ukey@.map_values(|g: ChunkGroup| g@),
            entrypoints: self.entrypoints@,
            code_generation_results: self.code_generation_results@,
            assets: self.assets@,
            state: self.state,
            diagnostics: self.diagnostics@.map_values(|d: Diagnostic| d@),
        }
    }
}

impl Compilation {
    /// The invariant: that of the view, and that each part is sound in itself.
    pub open(crate) spec fn wf(&self) -> bool {
        &&& self@.wf()
        &&& self.chunk_graph.wf()
        &&& self.entrypoints.wf()
        &&& self.code_generation_results.wf()
        &&& self.assets.wf()
    }

    /// A compilation that nothing has been built into yet.
    pub fn new() -> (c: Self)
        ensures
            c.wf(),
            c@ == CompilationView::fresh(),
    {
        let c = Compilation {
            module_graph: ModuleGraph::new(),
            chunk_graph: ChunkGraph::new(),
            chunk_by_ukey: Vec::new(),
            chunk_group_by_ukey: Vec::new(),
            entrypoints: TextMap::new(),
            code_generation_results: TextMap::new(),
            assets: TextMap::new(),
            state: CompilationState::Created,
            diagnostics: Vec::new(),
        };
        proof {
            assert(c@.chunks =~= Seq::<ChunkView>::empty());
            assert(c@.chunk_groups =~= Seq::<ChunkGroupView>::empty());
            assert(c@.diagnostics =~= Seq::<(Severity, Seq<char>, Seq<char>)>::empty());
            assert(c@.chunk_graph.chunks =~= Seq::new(c@.chunks.len(), |i: int| i as usize));
        }
        c
    }

    /// How far the compilation has come.
    pub fn state(&self) -> (s: CompilationState)
        ensures
            s == self@.state,
    {
        self.state
    }

    /// Whether every module of the module graph belongs to some chunk.
    pub fn every_module_has_chunk(&self) -> (all: bool)
        requires
            self.wf(),
        ensures
            all == self@.every_module_has_chunk(),
    {
        let modules = self.module_graph.modules();
        let mut i: usize = 0;
        while i < modules.len()
            invariant
                i <= modules.len(),
                self.wf(),
                modules@.map_values(|m: Module| m@) == self@.module_graph.modules,
                forall|j: int|
                    0 <= j < i ==> self@.chunk_graph.chunks_of(
                        (#[trigger] self@.module_graph.modules[j]).identifier,
                    ).len() > 0,
            decreases modules.len() - i,
        {
            assert(modules@[i as int]@ == self@.module_graph.modules[i as int]);
            if !self.chunk_graph.is_module_connected(modules[i].identifier()) {
                return false;
            }
            i = i + 1;
        }
        true
    }

    /// Ends one phase with the outcome given. A phase that succeeded moves
    /// the compilation one state on; one that failed aborts it and its error
    /// comes back. The phase that seals the compilation fails of itself
    /// where a module belongs to no chunk. Where no phase is left to run,
    /// the outcome comes back and the state stays.
    pub fn advance(&mut self, outcome: Result<(), Error>) -> (r: Result<CompilationState, Error>)
        requires
            old(self).wf(),
        ensures
            final(self).wf(),
            final(self)@ == (CompilationView {
                state: old(self)@.after_phase(outcome is Ok),
                ..old(self)@
            }),
            match outcome {
                Ok(_) => if old(self)@.seals_badly() {
                    r matches Err(e) && e@ == ErrorView::InternalError(orphan_message())
                } else {
                    r == Ok::<CompilationState, Error>(final(self)@.state)
                },
                Err(e) => r == Err::<CompilationState, Error>(e),
            },
    {
        match outcome {
            Ok(_) => {
                match self.state.next() {
                    Some(next) => {
                        match next {
                            CompilationState::Sealed => {
                                if !self.every_module_has_chunk() {
                                    self.state = CompilationState::Aborted;
                                    return Err(
                                        Error::InternalError(
                                            String::from_str("a module belongs to no chunk"),
                                        ),
                                    );
                                }
                            },
                            _ => {},
                        }
                        self.state = next;
                    },
                    None => {},
                }
                Ok(self.state)
            },
            Err(e) => {
                match self.state.next() {
                    Some(_) => {
                        self.state = CompilationState::Aborted;
                    },
                    None => {},
                }
                Err(e)
            },
        }
    }

    /// The module graph.
    pub fn module_graph(&self) -> (g: &ModuleGraph)
        ensures
            g@ == self@.module_graph,
    {
        &self.module_graph
    }

    /// The chunk graph.
    pub fn chunk_graph(&self) -> (g: &ChunkGraph)
        ensures
            g@ == self@.chunk_graph,
            self.wf() ==> g.wf(),
    {
        &self.chunk_graph
    }

    /// Adds `module` to the module graph unless a module of the same
    /// identifier is there already, or the compilation is sealed; says
    /// whether it was added.
    pub fn add_module(&mut self, module: Module, issuer: Option<ModuleIdentifier>) -> (added: bool)
        requires
            old(self).wf(),
            module@.wf(),
        ensures
            final(self).wf(),
            added == (!old(self)@.module_graph.has(module@.identifier) && !old(self)@.sealed()),
            final(self)@ == old(self)@.add_module(
                module@,
                match issuer {
                    Some(i) => Some(i@),
                    None => None,
                },
            ),
    {
        match self.state {
            CompilationState::Sealed => false,
            _ => self.module_graph.add_module(module, issuer),
        }
    }

    /// Adds an edge between two modules of the graph. Where either end is
    /// missing the edge is dropped, the answer is `false`, and a diagnostic
    /// about the unresolved reference is recorded.
    pub fn add_dependency(
        &mut self,
        from: &ModuleIdentifier,
        to: &ModuleIdentifier,
        kind: DependencyKind,
    ) -> (added: bool)
        requires
            old(self).wf(),
        ensures
            final(self).wf(),
            added == (old(self)@.module_graph.has(from@) && old(self)@.module_graph.has(to@)),
            final(self)@ == (CompilationView {
                module_graph: old(self)@.module_graph.add_dependency(from@, to@, kind),
                diagnostics: if added {
                    old(self)@.diagnostics
                } else {
                    old(self)@.diagnostics.push(unresolved_diagnostic(from@, to@))
                },
                ..old(self)@
            }),
    {
        let ghost start = self@;
        let added = self.module_graph.add_dependency(from, to, kind);
        proof {
            lemma_same_identifiers(start, self@);
        }
        if !added {
            let ghost before = self@.diagnostics;
            let d = Diagnostic {
                severity: Severity::Error,
                title: from.clone(),
                message: to.clone(),
            };
            self.diagnostics.push(d);
            assert(self@.diagnostics =~= before.push(unresolved_diagnostic(from@, to@)));
        }
        added
    }

    /// Records code that a module of the graph generated for one output kind.
    /// The answer is `false`, and nothing changes, where the graph does not
    /// hold the module or the module failed to compile.
    pub fn set_module_generated(
        &mut self,
        id: &ModuleIdentifier,
        source_type: SourceType,
        text: String,
    ) -> (done: bool)
        requires
            old(self).wf(),
        ensures
            final(self).wf(),
            done == (old(self)@.module_graph.has(id@) && !old(self)@.module_graph.module(
                id@,
            ).unwrap().failed),
            final(self)@ == (CompilationView {
                module_graph: old(self)@.module_graph.set_generated(id@, source_type, text@),
                ..old(self)@
            }),
    {
        let ghost before = self@;
        let done = self.module_graph.set_generated(id, source_type, text);
        proof {
            lemma_same_identifiers(before, self@);
        }
        done
    }

    /// Marks a module of the graph as one that failed to compile, and
    /// records `diagnostic` about it. The module stays in the graph and
    /// generates nothing. The answer is `false` where the graph does not
    /// hold the module; the diagnostic is recorded all the same.
    pub fn fail_module(&mut self, id: &ModuleIdentifier, diagnostic: Diagnostic) -> (done: bool)
        requires
            old(self).wf(),
        ensures
            final(self).wf(),
            done == old(self)@.module_graph.has(id@),
            final(self)@ == (CompilationView {
                module_graph: old(self)@.module_graph.fail(id@),
                diagnostics: old(self)@.diagnostics.push(diagnostic@),
                ..old(self)@
            }),
    {
        let ghost before = self@;
        let done = self.module_graph.fail_module(id);
        self.diagnostics.push(diagnostic);
        proof {
            assert(self@.diagnostics =~= before.diagnostics.push(diagnostic@));
            lemma_same_identifiers(before, self@);
        }
        done
    }

    /// Records that `request`, asked for by `issuer`, resolves to nothing.
    /// For the request of an entry this ends the build: the failure comes
    /// back. For any other request the build goes on.
    pub fn report_unresolved(&mut self, issuer: &str, request: &str, kind: DependencyKind) -> (r:
        Result<(), Error>)
        requires
            old(self).wf(),
        ensures
            final(self).wf(),
            final(self)@ == (CompilationView {
                diagnostics: old(self)@.diagnostics.push(unresolved_diagnostic(issuer@, request@)),
                ..old(self)@
            }),
            match r {
                Ok(_) => kind != DependencyKind::Entry,
                Err(e) => kind == DependencyKind::Entry && e@ == ErrorView::InternalError(request@),
            },
    {
        let ghost before = self@.diagnostics;
        self.diagnostics.push(
            Diagnostic {
                severity: Severity::Error,
                title: String::from_str(issuer),
                message: String::from_str(request),
            },
        );
        assert(self@.diagnostics =~= before.push(unresolved_diagnostic(issuer@, request@)));
        match kind {
            DependencyKind::Entry => Err(Error::InternalError(String::from_str(request))),
            _ => Ok(()),
        }
    }

    /// Puts the generated code of the module named `id` by, in place of what
    /// was put by for it before.
    pub fn set_code_generation_result(&mut self, id: ModuleIdentifier, result: CodeGenerationResult)
        requires
            old(self).wf(),
        ensures
            final(self).wf(),
            final(self)@ == (CompilationView {
                code_generation_results: put(old(self)@.code_generation_results, id@, result@),
                ..old(self)@
            }),
    {
        self.code_generation_results.insert(id, result);
    }

    /// The generated code that was put by for the module named `id`.
    pub fn code_generation_result(&self, id: &ModuleIdentifier) -> (found: Option<
        &CodeGenerationResult,
    >)
        requires
            self.wf(),
        ensures
            match found {
                Some(r) => lookup(self@.code_generation_results, id@) == Some(r@),
                None => lookup(self@.code_generation_results, id@) is None,
            },
    {
        self.code_generation_results.get(id.as_str())
    }

    /// Number of chunks, hot-update chunks included.
    pub fn chunk_count(&self) -> (n: usize)
        ensures
            n == self@.chunks.len(),
    {
        self.chunk_by_ukey.len()
    }

    /// The chunk under the key `ukey`, if there is one.
    pub fn chunk(&self, ukey: ChunkUkey) -> (found: Option<&Chunk>)
        ensures
            match found {
                Some(c) => ukey < self@.chunks.len() && c@ == self@.chunks[ukey as int],
                None => ukey >= self@.chunks.len(),
            },
    {
        if ukey < self.chunk_by_ukey.len() {
            Some(&self.chunk_by_ukey[ukey])
        } else {
            None
        }
    }

    /// The key of the lasting chunk whose id is `id`, if there is such a chunk.
    pub fn find_chunk_by_id(&self, id: &str) -> (found: Option<ChunkUkey>)
        requires
            self.wf(),
        ensures
            found == self@.find_chunk(id@),
            found matches Some(u) ==> self@.is_persistent_chunk(u as int, id@),
    {
        let mut i: usize = 0;
        while i < self.chunk_by_ukey.len()
            invariant
                i <= self.chunk_by_ukey.len(),
                self.wf(),
                forall|j: int| 0 <= j < i ==> !self@.is_persistent_chunk(j, id@),
            decreases self.chunk_by_ukey.len() - i,
        {
            if self.chunk_by_ukey[i].is_persistent() && str_eq(
                self.chunk_by_ukey[i].id().as_str(),
                id,
            ) {
                proof {
                    assert(self@.is_persistent_chunk(i as int, id@));
                    let w = choose|w: int| self@.is_persistent_chunk(w, id@);
                    assert(self@.chunks[w].id == self@.chunks[i as int].id);
                }
                return Some(i);
            }
            i = i + 1;
        }
        None
    }

    /// Takes `chunk` in and gives it the next free key. A chunk that the
    /// compilation does not admit is refused: the answer is `None` and
    /// nothing changes.
    pub fn add_chunk(&mut self, chunk: Chunk) -> (ukey: Option<ChunkUkey>)
        requires
            old(self).wf(),
            chunk@.wf(),
        ensures
            final(self).wf(),
            ukey is Some == old(self)@.admits(chunk@),
            match ukey {
                Some(u) => u == old(self)@.chunks.len() && final(self)@ == old(self)@.add_chunk(
                    chunk@,
                ),
                None => final(self)@ == old(self)@,
            },
    {
        if chunk.is_persistent() && (self.find_chunk_by_id(chunk.id().as_str()).is_some()
            || !chunk.runtime().is_empty() || chunk.groups().len() > 0) {
            return None;
        }
        let mut k: usize = 0;
        while k < chunk.groups().len()
            invariant
                k <= chunk@.groups.len(),
                *self == *old(self),
                self.wf(),
                forall|j: int| 0 <= j < k ==> #[trigger] chunk@.groups[j] < self@.chunk_groups.len(),
            decreases chunk@.groups.len() - k,
        {
            if chunk.groups()[k] >= self.chunk_group_by_ukey.len() {
                assert(!(chunk@.groups[k as int] < self@.chunk_groups.len()));
                return None;
            }
            k = k + 1;
        }
        let ghost before = self@;
        let ukey = self.chunk_by_ukey.len();
        let mut chunk = chunk;
        chunk.ukey = ukey;
        let ghost added = chunk@;
        self.chunk_by_ukey.push(chunk);
        self.chunk_graph.add_chunk(ukey);
        proof {
            assert(self@.chunks =~= before.chunks.push(added));
            assert(!before.chunk_graph.has_chunk(ukey)) by {
                if before.chunk_graph.chunks.contains(ukey) {
                    let k = choose|k: int|
                        0 <= k < before.chunk_graph.chunks.len() && before.chunk_graph.chunks[k]
                            == ukey;
                    assert(before.chunk_graph.chunks[k] == k as usize);
                }
            }
            assert(self@.chunk_graph.chunks =~= Seq::new(self@.chunks.len(), |i: int| i as usize));
            assert forall|i: int, j: int|
                0 <= i < j < self@.chunks.len() && self@.chunks[i].persistent()
                    && self@.chunks[j].persistent() implies self@.chunks[i].id
                != self@.chunks[j].id by {
                if j == ukey {
                    if self@.chunks[i].id == added.id {
                        assert(before.is_persistent_chunk(i, added.id));
                    }
                }
            }
            assert forall|i: int|
                0 <= i < self@.chunks.len() && self@.chunks[i].persistent() implies (
            #[trigger] self@.chunks[i]).runtime == groups_runtime(
                self@.chunk_groups,
                self@.chunks[i].groups,
                self@.chunks[i].groups.len() as int,
            ) by {
                if i < ukey {
                    assert(before.chunks[i].persistent());
                } else {
                    assert(added.runtime =~= Seq::<Seq<char>>::empty());
                }
            }
            assert forall|i: int|
                0 <= i < self@.module_graph.modules.len() implies self@.chunk_graph.chunks_of(
                (#[trigger] self@.module_graph.modules[i]).identifier,
            ) == before.chunk_graph.chunks_of(before.module_graph.modules[i].identifier) by {}
        }
        Some(ukey)
    }

    /// Takes `group` in and gives it the next free key.
    pub fn add_chunk_group(&mut self, group: ChunkGroup) -> (ukey: ChunkGroupUkey)
        requires
            old(self).wf(),
            group@.wf(),
        ensures
            final(self).wf(),
            ukey == old(self)@.chunk_groups.len(),
            final(self)@ == old(self)@.add_chunk_group(group@),
    {
        let ghost before = self@;
        let ukey = self.chunk_group_by_ukey.len();
        let mut group = group;
        group.ukey = ukey;
        let ghost added = group@;
        self.chunk_group_by_ukey.push(group);
        proof {
            assert(self@.chunk_groups =~= before.chunk_groups.push(added));
            assert(self@.chunks =~= before.chunks);
            assert forall|i: int|
                0 <= i < self@.chunks.len() && self@.chunks[i].persistent() implies (
            #[trigger] self@.chunks[i]).runtime == groups_runtime(
                self@.chunk_groups,
                self@.chunks[i].groups,
                self@.chunks[i].groups.len() as int,
            ) by {
                let groups = before.chunks[i].groups;
                assert forall|k: int| 0 <= k < groups.len() implies group_tags(
                    before.chunk_groups,
                    #[trigger] groups[k],
                ) == group_tags(self@.chunk_groups, groups[k]) by {
                    assert(before.chunks[i].groups[k] < before.chunk_groups.len());
                }
                lemma_groups_runtime_stable(
                    before.chunk_groups,
                    self@.chunk_groups,
                    groups,
                    groups.len() as int,
                );
            }
        }
        ukey
    }

    /// The chunk group under the key `ukey`, if there is one.
    pub fn chunk_group(&self, ukey: ChunkGroupUkey) -> (found: Option<&ChunkGroup>)
        ensures
            match found {
                Some(g) => ukey < self@.chunk_groups.len() && g@ == self@.chunk_groups[ukey as int],
                None => ukey >= self@.chunk_groups.len(),
            },
    {
        if ukey < self.chunk_group_by_ukey.len() {
            Some(&self.chunk_group_by_ukey[ukey])
        } else {
            None
        }
    }

    /// Makes the chunk `chunk` a member of the group `group`. The chunk's
    /// runtime grows by the group's. The answer is `false`, and nothing
    /// changes, where either is missing or the compilation is sealed.
    pub fn add_chunk_to_group(&mut self, chunk: ChunkUkey, group: ChunkGroupUkey) -> (joined: bool)
        requires
            old(self).wf(),
        ensures
            final(self).wf(),
            joined == old(self)@.can_join(chunk, group),
            final(self)@ == old(self)@.join(chunk, group),
    {
        if chunk >= self.chunk_by_ukey.len() || group >= self.chunk_group_by_ukey.len() {
            return false;
        }
        match self.state {
            CompilationState::Sealed => {
                return false;
            },
            _ => {},
        }
        let ghost before = self@;
        let ghost c = before.chunks[chunk as int];
        let ghost g = before.chunk_groups[group as int];
        assert(c.wf() && g.wf());
        match &self.chunk_group_by_ukey[group].runtime {
            Some(rt) => {
                self.chunk_by_ukey[chunk].runtime.extend(rt);
            },
            None => {
                proof {
                    crate::text::lemma_filter_empty(|t: Seq<char>| !c.runtime.contains(t));
                    assert(runtime_union(c.runtime, g.runtime_tags()) =~= c.runtime);
                }
            },
        }
        self.chunk_by_ukey[chunk].add_group(group);
        let mut present = false;
        let mut j: usize = 0;
        let ghost middle = *self;
        while j < self.chunk_group_by_ukey[group as usize].chunks.len()
            invariant
                *self == middle,
                group < self.chunk_group_by_ukey@.len(),
                j <= self.chunk_group_by_ukey@[group as int].chunks@.len(),
                present ==> self.chunk_group_by_ukey@[group as int].chunks@.contains(chunk),
                !present ==> forall|k: int|
                    0 <= k < j ==> self.chunk_group_by_ukey@[group as int].chunks@[k] != chunk,
            decreases self.chunk_group_by_ukey@[group as int].chunks@.len() - j,
        {
            if self.chunk_group_by_ukey[group].chunks[j] == chunk {
                present = true;
            }
            j = j + 1;
        }
        if !present {
            self.chunk_group_by_ukey[group].chunks.push(chunk);
        }
        proof {
            let goal = before.join(chunk, group);
            assert(self@.chunks =~= goal.chunks);
            assert(self@.chunk_groups =~= goal.chunk_groups);
            crate::runtime::lemma_runtime_union_no_duplicates(c.runtime, g.runtime_tags());
            assert forall|i: int, k: int|
                0 <= i < k < self@.chunks.len() && self@.chunks[i].persistent()
                    && self@.chunks[k].persistent() implies self@.chunks[i].id
                != self@.chunks[k].id by {
                assert(before.chunks[i].id != before.chunks[k].id);
            }
            assert(self@.chunk_graph.chunks =~= Seq::new(self@.chunks.len(), |i: int| i as usize));
            lemma_join_keeps_runtimes(before, chunk, group);
        }
        true
    }

    /// Names the chunk group `group` as the entrypoint `name`, in place of
    /// the group that was the entrypoint of that name before.
    pub fn add_entrypoint(&mut self, name: String, group: ChunkGroupUkey)
        requires
            old(self).wf(),
        ensures
            final(self).wf(),
            final(self)@ == (CompilationView {
                entrypoints: put(old(self)@.entrypoints, name@, group),
                ..old(self)@
            }),
    {
        self.entrypoints.insert(name, group);
    }

    /// Puts the module named `id` into the chunk `ukey`; connecting the same
    /// pair again changes nothing. The answer is `false`, and nothing
    /// changes, where there is no such chunk.
    pub fn connect_chunk_and_module(&mut self, ukey: ChunkUkey, id: ModuleIdentifier) -> (connected:
        bool)
        requires
            old(self).wf(),
        ensures
            final(self).wf(),
            connected == (ukey < old(self)@.chunks.len()),
            final(self)@ == (CompilationView {
                chunk_graph: old(self)@.chunk_graph.connect(ukey, id@),
                ..old(self)@
            }),
    {
        proof {
            if ukey < self@.chunks.len() {
                assert(self@.chunk_graph.chunks[ukey as int] == ukey);
            } else if self@.chunk_graph.chunks.contains(ukey) {
                let k = choose|k: int|
                    0 <= k < self@.chunk_graph.chunks.len() && self@.chunk_graph.chunks[k] == ukey;
                assert(self@.chunk_graph.chunks[k] == k as usize);
            }
        }
        let ghost before = self@;
        let connected = self.chunk_graph.connect_chunk_and_module(ukey, id);
        proof {
            assert forall|i: int|
                0 <= i < self@.module_graph.modules.len() && before.chunk_graph.chunks_of(
                    before.module_graph.modules[i].identifier,
                ).len() > 0 implies self@.chunk_graph.chunks_of(
                (#[trigger] self@.module_graph.modules[i]).identifier,
            ).len() > 0 by {}
        }
        connected
    }

    /// Stores `asset` under `filename`, in place of the asset that had that
    /// name before.
    pub fn emit_asset(&mut self, filename: String, asset: CompilationAsset)
        requires
            old(self).wf(),
        ensures
            final(self).wf(),
            final(self)@ == (CompilationView {
                assets: put(old(self)@.assets, filename@, asset@),
                ..old(self)@
            }),
    {
        self.assets.insert(filename, asset);
    }

    /// The asset stored under `filename`, if there is one.
    pub fn asset(&self, filename: &str) -> (found: Option<&CompilationAsset>)
        requires
            self.wf(),
        ensures
            match found {
                Some(a) => lookup(self@.assets, filename@) == Some(a@),
                None => lookup(self@.assets, filename@) is None,
            },
    {
        self.assets.get(filename)
    }

    /// Records a diagnostic.
    pub fn push_diagnostic(&mut self, diagnostic: Diagnostic)
        requires
            old(self).wf(),
        ensures
            final(self).wf(),
            final(self)@ == (CompilationView {
                diagnostics: old(self)@.diagnostics.push(diagnostic@),
                ..old(self)@
            }),
    {
        let ghost before = self@.diagnostics;
        self.diagnostics.push(diagnostic);
        assert(self@.diagnostics =~= before.push(diagnostic@));
    }

    /// The union of the runtimes of all entrypoints' chunk groups, in the
    /// order of the entrypoints.
    pub fn entry_runtime(&self) -> (all: RuntimeSpec)
        requires
            self.wf(),
        ensures
            all.wf(),
            all@ == self@.entry_runtime(),
    {
        let mut all = RuntimeSpec::new();
        let mut i: usize = 0;
        while i < self.entrypoints.len()
            invariant
                i <= self.entrypoints@.len(),
                self.wf(),
                all.wf(),
                all@ == self@.entry_runtime_of(i as nat),
            decreases self.entrypoints@.len() - i,
        {
            let group = *self.entrypoints.value_at(i);
            let ghost before = all@;
            match self.chunk_group(group) {
                Some(g) => {
                    assert(g@.wf());
                    match g.runtime() {
                        Some(rt) => {
                            all.extend(rt);
                        },
                        None => {
                            proof {
                                crate::text::lemma_filter_empty(
                                    |t: Seq<char>| !before.contains(t),
                                );
                                assert(runtime_union(before, Seq::empty()) =~= before);
                            }
                        },
                    }
                },
                None => {
                    proof {
                        crate::text::lemma_filter_empty(|t: Seq<char>| !before.contains(t));
                        assert(runtime_union(before, Seq::empty()) =~= before);
                    }
                },
            }
            i = i + 1;
        }
        all
    }

    /// The report of the build: every asset with its size and flags, and
    /// the diagnostics collected so far.
    pub fn get_stats(&self) -> (stats: Stats)
        requires
            self.wf(),
        ensures
            stats.asset_list() == asset_summary(self@.assets),
            stats.diagnostic_list() == self@.diagnostics,
    {
        let mut assets: Vec<StatsAsset> = Vec::new();
        let mut i: usize = 0;
        while i < self.assets.len()
            invariant
                i <= self.assets@.len(),
                self.wf(),
                assets@.len() == i,
                forall|j: int| 0 <= j < i ==> (#[trigger] assets@[j])@ == (
                    self@.assets[j].0,
                    vstd::utf8::encode_utf8(self@.assets[j].1.source).len() as usize,
                    self@.assets[j].1.info,
                ),
            decreases self.assets@.len() - i,
        {
            let name = self.assets.key_at(i).clone();
            let asset = self.assets.value_at(i);
            assets.push(StatsAsset { name, size: asset.source.as_str().len(), info: asset.info });
            i = i + 1;
        }
        let mut diagnostics: Vec<Diagnostic> = Vec::new();
        let mut k: usize = 0;
        while k < self.diagnostics.len()
            invariant
                k <= self.diagnostics@.len(),
                diagnostics@.len() == k,
                forall|j: int| 0 <= j < k ==> (#[trigger] diagnostics@[j]) == self.diagnostics@[j],
            decreases self.diagnostics@.len() - k,
        {
            diagnostics.push(self.diagnostics[k].clone());
            k = k + 1;
        }
        let stats = Stats { assets, diagnostics };
        proof {
            assert(stats.asset_list() =~= asset_summary(self@.assets));
            assert(stats.diagnostic_list() =~= self@.diagnostics);
        }
        stats
    }
}

/// The diagnostic recorded for a reference that resolves to nothing: an
/// error under the name of the module that asked, which says what it asked for.
pub open spec fn unresolved_diagnostic(
    from: Seq<char>,
    to: Seq<char>,
) -> (Severity, Seq<char>, Seq<char>) {
    (Severity::Error, from, to)
}

/// What the failure says that refuses to seal a compilation.
pub open spec fn orphan_message() -> Seq<char> {
    "a module belongs to no chunk"@
}

/// A change to the module graph that keeps every module's identifier
/// keeps the compilation sound.
proof fn lemma_same_identifiers(before: CompilationView, after: CompilationView)
    requires
        after.chunk_graph == before.chunk_graph,
        after.module_graph.ids() == before.module_graph.ids(),
    ensures
        before.every_module_has_chunk() ==> after.every_module_has_chunk(),
{
    if before.every_module_has_chunk() {
        assert(after.module_graph.modules.len() == after.module_graph.ids().len());
        assert(before.module_graph.modules.len() == before.module_graph.ids().len());
        assert forall|i: int|
            0 <= i < after.module_graph.modules.len() implies after.chunk_graph.chunks_of(
            (#[trigger] after.module_graph.modules[i]).identifier,
        ).len() > 0 by {
            assert(after.module_graph.ids()[i] == after.module_graph.modules[i].identifier);
            assert(before.module_graph.ids()[i] == before.module_graph.modules[i].identifier);
            assert(before.chunk_graph.chunks_of(before.module_graph.modules[i].identifier).len()
                > 0);
        }
    }
}

/// After a chunk joined a group, every lasting chunk's runtime is still the
/// union of the runtimes of its groups.
proof fn lemma_join_keeps_runtimes(before: CompilationView, chunk: ChunkUkey, group: ChunkGroupUkey)
    requires
        before.wf(),
        before.can_join(chunk, group),
    ensures
        ({
            let after = before.join(chunk, group);
            &&& forall|i: int, k: int|
                0 <= i < after.chunks.len() && 0 <= k < after.chunks[i].groups.len()
                    ==> #[trigger] after.chunks[i].groups[k] < after.chunk_groups.len()
            &&& forall|i: int|
                0 <= i < after.chunks.len() && after.chunks[i].persistent() ==> (
                #[trigger] after.chunks[i]).runtime == groups_runtime(
                    after.chunk_groups,
                    after.chunks[i].groups,
                    after.chunks[i].groups.len() as int,
                )
        }),
{
    let after = before.join(chunk, group);
    let c = before.chunks[chunk as int];
    let g = before.chunk_groups[group as int];
    assert forall|u: ChunkGroupUkey| group_tags(after.chunk_groups, u) == group_tags(
        before.chunk_groups,
        u,
    ) by {}
    assert forall|i: int, k: int|
        0 <= i < after.chunks.len() && 0 <= k < after.chunks[i].groups.len() implies #[trigger] after.chunks[i].groups[k]
        < after.chunk_groups.len() by {
        if i == chunk {
            if k < c.groups.len() {
                assert(before.chunks[i].groups[k] < before.chunk_groups.len());
            }
        } else {
            assert(before.chunks[i].groups[k] < before.chunk_groups.len());
        }
    }
    assert forall|i: int| 0 <= i < after.chunks.len() && after.chunks[i].persistent() implies (
    #[trigger] after.chunks[i]).runtime == groups_runtime(
        after.chunk_groups,
        after.chunks[i].groups,
        after.chunks[i].groups.len() as int,
    ) by {
        let now = after.chunks[i];
        let was = before.chunks[i];
        assert(was.persistent());
        lemma_groups_runtime_stable(
            before.chunk_groups,
            after.chunk_groups,
            was.groups,
            was.groups.len() as int,
        );
        if i == chunk {
            if c.groups.contains(group) {
                let k = choose|k: int| 0 <= k < c.groups.len() && c.groups[k] == group;
                assert forall|w: int| 0 <= w < g.runtime_tags().len() implies c.runtime.contains(
                    #[trigger] g.runtime_tags()[w],
                ) by {
                    assert(g.runtime_tags().contains(g.runtime_tags()[w]));
                    lemma_groups_runtime_holds(
                        before.chunk_groups,
                        c.groups,
                        c.groups.len() as int,
                        k,
                        g.runtime_tags()[w],
                    );
                }
                lemma_union_absorbs(c.runtime, g.runtime_tags());
            } else {
                let longer = c.groups.push(group);
                lemma_groups_runtime_stable(
                    before.chunk_groups,
                    after.chunk_groups,
                    longer,
                    longer.len() as int,
                );
                lemma_groups_prefix(before.chunk_groups, c.groups, longer, c.groups.len() as int);
            }
        }
    }
}

/// The union of the runtimes of the first groups of a list goes by those
/// groups alone.
proof fn lemma_groups_prefix(
    chunk_groups: Seq<ChunkGroupView>,
    shorter: Seq<ChunkGroupUkey>,
    longer: Seq<ChunkGroupUkey>,
    count: int,
)
    requires
        0 <= count <= shorter.len() <= longer.len(),
        forall|k: int| 0 <= k < count ==> shorter[k] == longer[k],
    ensures
        groups_runtime(chunk_groups, shorter, count) == groups_runtime(chunk_groups, longer, count),
    decreases count,
{
    if count > 0 {
        lemma_groups_prefix(chunk_groups, shorter, longer, count - 1);
    }
}

} // verus!
