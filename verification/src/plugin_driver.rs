//! The plugin driver: an ordered list of plugins, and one method per hook
//! that runs the hook across them under the hook's aggregation policy.

use std::sync::Arc;
use vstd::prelude::*;
use crate::chunk::ChunkUkey;
use crate::compilation::{Compilation, CompilationView};
use crate::error::{Diagnostic, Error, ErrorView};
use crate::hook::{
    collect_all, collect_all_upto, first_match, first_match_from, first_match_next,
    first_match_step, process_assets_next, process_assets_step, run_all_next, run_all_step,
    thread_all_from, thread_all_mut_from, HookStep, ProcessAssetsStage, StageStep,
};
use crate::module::{ModuleType, SourceType};
use crate::options::CompilerOptions;
use crate::plugin::{
    hash_part, manifest_outcome, text_outcome, unit_outcome,
    AdditionalChunkRuntimeRequirementsArgs, ApplyContext, ContentHashArgs, Plugin, PluginContext,
    RenderArgs, RenderChunkArgs, RenderManifestArgs, RenderManifestEntry, RenderManifestEntryView,
    RenderModuleContentArgs, RenderStartupArgs, RuntimeRequirementsView,
};
use crate::text::{lemma_index_of_unique, lemma_index_of_within};

verus! {

/// What a resource read yields.
#[derive(Debug)]
pub enum Content {
    String(String),
    Buffer(Vec<u8>),
}

/// The module types of a registry's entries, in order.
pub open spec fn registry_types<B>(registry: Seq<(ModuleType, B)>) -> Seq<ModuleType> {
    registry.map_values(|e: (ModuleType, B)| e.0)
}

/// The builder registered for `module_type`, if one is.
pub open spec fn registry_get<B>(registry: Seq<(ModuleType, B)>, module_type: ModuleType) -> Option<
    B,
> {
    if registry_types(registry).contains(module_type) {
        Some(registry[registry_types(registry).index_of(module_type)].1)
    } else {
        None
    }
}

/// The registry after `builder` was registered for `module_type`: in place
/// of the builder that was registered for that type, or as a new last entry.
pub open spec fn registry_put<B>(
    registry: Seq<(ModuleType, B)>,
    module_type: ModuleType,
    builder: B,
) -> Seq<(ModuleType, B)> {
    if registry_types(registry).contains(module_type) {
        registry.update(registry_types(registry).index_of(module_type), (module_type, builder))
    } else {
        registry.push((module_type, builder))
    }
}

/// The registry after the first `count` of `items` were registered, one
/// after the other.
pub open spec fn registry_after_items<B>(
    registry: Seq<(ModuleType, B)>,
    items: Seq<(ModuleType, B)>,
    count: int,
) -> Seq<(ModuleType, B)>
    decreases count,
{
    if count <= 0 || count > items.len() {
        registry
    } else {
        registry_put(
            registry_after_items(registry, items, count - 1),
            items[count - 1].0,
            items[count - 1].1,
        )
    }
}

/// The registry that the first `count` plugins' registrations make up, the
/// plugins taken in order: where two registered for one module type, the later stands.
pub open spec fn registry_after_contexts<B>(
    contexts: Seq<Seq<(ModuleType, B)>>,
    count: int,
) -> Seq<(ModuleType, B)>
    decreases count,
{
    if count <= 0 || count > contexts.len() {
        Seq::empty()
    } else {
        registry_after_items(
            registry_after_contexts(contexts, count - 1),
            contexts[count - 1],
            contexts[count - 1].len() as int,
        )
    }
}

/// What each plugin registered, as sequences.
pub open spec fn registrations<B>(contexts: Seq<ApplyContext<B>>) -> Seq<Seq<(ModuleType, B)>> {
    contexts.map_values(|c: ApplyContext<B>| c.registered_parser_and_generator_builder@)
}

/// Registering keeps the registry free of repeated module types.
pub proof fn lemma_registry_put<B>(
    registry: Seq<(ModuleType, B)>,
    module_type: ModuleType,
    builder: B,
)
    requires
        registry_types(registry).no_duplicates(),
    ensures
        registry_types(registry_put(registry, module_type, builder)).no_duplicates(),
        registry_get(registry_put(registry, module_type, builder), module_type) == Some(builder),
{
    let types = registry_types(registry);
    let after = registry_put(registry, module_type, builder);
    if types.contains(module_type) {
        lemma_index_of_within(types, module_type);
        assert(registry_types(after) =~= types);
    } else {
        assert(registry_types(after) =~= types.push(module_type));
        assert(registry_types(after)[types.len() as int] == module_type);
        lemma_index_of_unique(registry_types(after), types.len() as int);
    }
}

/// The answers of the plugins to `render_manifest`, in registration order.
pub open spec fn render_manifest_answers<P: Plugin>(
    plugins: Seq<P>,
    compilation: CompilationView,
    chunk_ukey: ChunkUkey,
) -> Seq<Result<Seq<RenderManifestEntryView>, ErrorView>> {
    plugins.map_values(|p: P| p.render_manifest_outcome(compilation, chunk_ukey))
}

/// The answers of the plugins to `content_hash`, each as a list of one part.
pub open spec fn content_hash_answers<P: Plugin>(
    plugins: Seq<P>,
    compilation: CompilationView,
    chunk_ukey: ChunkUkey,
) -> Seq<Result<Seq<Option<(SourceType, Seq<char>)>>, ErrorView>> {
    plugins.map_values(
        |p: P|
            match p.content_hash_outcome(compilation, chunk_ukey) {
                Ok(part) => Ok(seq![part]),
                Err(e) => Err(e),
            },
    )
}

/// The answers of the plugins to `render_chunk`, in registration order.
pub open spec fn render_chunk_answers<P: Plugin>(
    plugins: Seq<P>,
    compilation: CompilationView,
    chunk_ukey: ChunkUkey,
) -> Seq<Result<Option<Seq<char>>, ErrorView>> {
    plugins.map_values(|p: P| p.render_chunk_outcome(compilation, chunk_ukey))
}

/// The answers of the plugins to `render`, in registration order.
pub open spec fn render_answers<P: Plugin>(
    plugins: Seq<P>,
    compilation: CompilationView,
    chunk_ukey: ChunkUkey,
    source: Seq<char>,
) -> Seq<Result<Option<Seq<char>>, ErrorView>> {
    plugins.map_values(|p: P| p.render_outcome(compilation, chunk_ukey, source))
}

/// The answers of the plugins to `render_startup`, in registration order.
pub open spec fn render_startup_answers<P: Plugin>(
    plugins: Seq<P>,
    compilation: CompilationView,
    chunk_ukey: ChunkUkey,
    source: Seq<char>,
) -> Seq<Result<Option<Seq<char>>, ErrorView>> {
    plugins.map_values(|p: P| p.render_startup_outcome(compilation, chunk_ukey, source))
}

/// The answers of the plugins to `render_module_content`, in registration order.
pub open spec fn render_module_content_answers<P: Plugin>(
    plugins: Seq<P>,
    compilation: CompilationView,
    module_source: Seq<char>,
) -> Seq<Result<Option<Seq<char>>, ErrorView>> {
    plugins.map_values(|p: P| p.render_module_content_outcome(compilation, module_source))
}

/// The content-hash parts as mathematical values.
pub open spec fn hash_parts(parts: Seq<Option<(SourceType, String)>>) -> Seq<
    Option<(SourceType, Seq<char>)>,
> {
    parts.map_values(|p: Option<(SourceType, String)>| hash_part(p))
}

/// The outcome of the content-hash hook across all plugins, as a mathematical value.
pub open spec fn hash_parts_outcome(r: Result<Vec<Option<(SourceType, String)>>, Error>) -> Result<
    Seq<Option<(SourceType, Seq<char>)>>,
    ErrorView,
> {
    match r {
        Ok(parts) => Ok(hash_parts(parts@)),
        Err(e) => Err(e@),
    }
}

/// The plugins of one compiler, in registration order, with what they
/// registered and the diagnostics they reported.
pub struct PluginDriver<P: Plugin, R> {
    pub(crate) options: Arc<CompilerOptions>,
    pub(crate) plugins: Vec<P>,
    pub(crate) resolver_factory: R,
    pub(crate) registered_parser_and_generator_builder: Vec<(ModuleType, P::Builder)>,
    pub(crate) diagnostics: Vec<Diagnostic>,
}

impl<P: Plugin, R> PluginDriver<P, R> {
    /// The plugins, in registration order.
    pub open(crate) spec fn plugin_list(&self) -> Seq<P> {
        self.plugins@
    }

    /// The compiler options the driver was made with.
    pub open(crate) spec fn options_spec(&self) -> Arc<CompilerOptions> {
        self.options
    }

    /// The resolver factory the driver carries.
    pub open(crate) spec fn resolver(&self) -> R {
        self.resolver_factory
    }

    /// The registry of parser and generator builders, by module type.
    pub open(crate) spec fn registry(&self) -> Seq<(ModuleType, P::Builder)> {
        self.registered_parser_and_generator_builder@
    }

    /// The diagnostics that were reported and not yet taken, oldest first.
    pub open(crate) spec fn pending_diagnostics(&self) -> Seq<Diagnostic> {
        self.diagnostics@
    }

    /// No module type occurs twice in the registry.
    pub open(crate) spec fn wf(&self) -> bool {
        registry_types(self.registry()).no_duplicates()
    }

    /// A driver over `plugins`, in that order. `applied` holds what each
    /// plugin registered when it was applied, in the order of the plugins;
    /// where two plugins registered a builder for one module type, the later
    /// plugin's builder stands.
    pub fn new(
        options: Arc<CompilerOptions>,
        plugins: Vec<P>,
        resolver_factory: R,
        applied: Vec<ApplyContext<P::Builder>>,
    ) -> (driver: Self)
        ensures
            driver.wf(),
            driver.plugin_list() == plugins@,
            driver.options_spec() == options,
            driver.resolver() == resolver_factory,
            driver.registry() == registry_after_contexts(
                registrations(applied@),
                applied@.len() as int,
            ),
            driver.pending_diagnostics().len() == 0,
    {
        let ghost all = registrations(applied@);
        let mut applied = applied;
        let mut registry: Vec<(ModuleType, P::Builder)> = Vec::new();
        let ghost mut done: int = 0;
        while applied.len() > 0
            invariant
                0 <= done <= all.len(),
                registrations(applied@) == all.skip(done),
                registry@ == registry_after_contexts(all, done),
                registry_types(registry@).no_duplicates(),
            decreases applied.len(),
        {
            let ghost rest = registrations(applied@);
            let ghost waiting = applied@;
            let context = applied.remove(0);
            let mut items = context.registered_parser_and_generator_builder;
            let ghost these = items@;
            let ghost start = registry@;
            let ghost mut taken: int = 0;
            proof {
                assert(these == rest[0]);
                assert(rest.len() > 0);
                assert(all.skip(done)[0] == all[done]);
                assert forall|k: int| 0 <= k < applied@.len() implies registrations(
                    applied@,
                )[k] == all.skip(done + 1)[k] by {
                    assert(applied@[k] == waiting[k + 1]);
                    assert(rest[k + 1] == all.skip(done)[k + 1]);
                }
                assert(registrations(applied@) =~= all.skip(done + 1));
            }
            while items.len() > 0
                invariant
                    0 <= taken <= these.len(),
                    items@ == these.skip(taken),
                    registry@ == registry_after_items(start, these, taken),
                    registry_types(registry@).no_duplicates(),
                decreases items.len(),
            {
                let (module_type, builder) = items.remove(0);
                proof {
                    assert(these[taken] == (module_type, builder));
                    assert(items@ =~= these.skip(taken + 1));
                    lemma_registry_put(registry@, module_type, builder);
                }
                Self::register(&mut registry, module_type, builder);
                proof {
                    taken = taken + 1;
                }
            }
            proof {
                assert(taken == these.len());
                done = done + 1;
            }
        }
        proof {
            assert(done == all.len());
        }
        PluginDriver {
            options,
            plugins,
            resolver_factory,
            registered_parser_and_generator_builder: registry,
            diagnostics: Vec::new(),
        }
    }

    fn register(
        registry: &mut Vec<(ModuleType, P::Builder)>,
        module_type: ModuleType,
        builder: P::Builder,
    )
        requires
            registry_types(old(registry)@).no_duplicates(),
        ensures
            final(registry)@ == registry_put(old(registry)@, module_type, builder),
    {
        let ghost before = registry@;
        let ghost types = registry_types(before);
        let mut k: usize = 0;
        while k < registry.len()
            invariant
                k <= registry.len(),
                registry@ == before,
                before == old(registry)@,
                types == registry_types(before),
                types.no_duplicates(),
                forall|j: int| 0 <= j < k ==> types[j] != module_type,
            decreases registry.len() - k,
        {
            if registry[k].0 == module_type {
                proof {
                    assert(types[k as int] == module_type);
                    lemma_index_of_unique(types, k as int);
                }
                registry[k] = (module_type, builder);
                assert(registry@ =~= registry_put(before, module_type, builder));
                return ;
            }
            k = k + 1;
        }
        registry.push((module_type, builder));
    }

    /// The compiler options the driver was made with.
    pub fn options(&self) -> (options: &Arc<CompilerOptions>)
        ensures
            *options == self.options_spec(),
    {
        &self.options
    }

    /// The plugins, in registration order.
    pub fn plugins(&self) -> (plugins: &Vec<P>)
        ensures
            plugins@ == self.plugin_list(),
    {
        &self.plugins
    }

    /// The plugins, to be worked on in place.
    pub fn plugins_mut(&mut self) -> (plugins: &mut Vec<P>)
        ensures
            plugins@ == old(self).plugin_list(),
            final(self).plugin_list() == final(plugins)@,
            final(self).registry() == old(self).registry(),
            final(self).pending_diagnostics() == old(self).pending_diagnostics(),
    {
        &mut self.plugins
    }

    /// The resolver factory the driver carries.
    pub fn resolver_factory(&self) -> (factory: &R)
        ensures
            *factory == self.resolver(),
    {
        &self.resolver_factory
    }

    /// The builder registered for modules of the type `module_type`, if any.
    pub fn parser_and_generator_builder(&self, module_type: ModuleType) -> (found: Option<
        &P::Builder,
    >)
        requires
            self.wf(),
        ensures
            match found {
                Some(b) => registry_get(self.registry(), module_type) == Some(*b),
                None => registry_get(self.registry(), module_type) is None,
            },
    {
        let ghost types = registry_types(self.registry());
        let mut k: usize = 0;
        while k < self.registered_parser_and_generator_builder.len()
            invariant
                k <= self.registry().len(),
                types == registry_types(self.registry()),
                types.no_duplicates(),
                forall|j: int| 0 <= j < k ==> types[j] != module_type,
            decreases self.registry().len() - k,
        {
            if self.registered_parser_and_generator_builder[k].0 == module_type {
                proof {
                    assert(types[k as int] == module_type);
                    lemma_index_of_unique(types, k as int);
                }
                return Some(&self.registered_parser_and_generator_builder[k].1);
            }
            k = k + 1;
        }
        None
    }

    /// Records a diagnostic that a plugin reports.
    pub fn report(&mut self, diagnostic: Diagnostic)
        ensures
            final(self).pending_diagnostics() == old(self).pending_diagnostics().push(diagnostic),
            final(self).plugin_list() == old(self).plugin_list(),
            final(self).registry() == old(self).registry(),
    {
        self.diagnostics.push(diagnostic);
    }

    /// Hands out the diagnostics reported since they were last taken, oldest
    /// first, and forgets them: taking again at once yields none.
    pub fn take_diagnostic(&mut self) -> (taken: Vec<Diagnostic>)
        ensures
            taken@ == old(self).pending_diagnostics(),
            final(self).pending_diagnostics().len() == 0,
            final(self).plugin_list() == old(self).plugin_list(),
            final(self).registry() == old(self).registry(),
    {
        let mut taken: Vec<Diagnostic> = Vec::new();
        std::mem::swap(&mut taken, &mut self.diagnostics);
        taken
    }

    /// Collect-all: the output files that all plugins render for a chunk,
    /// plugin after plugin in registration order, or the first failure.
    pub fn render_manifest(&self, args: RenderManifestArgs<'_>) -> (r: Result<
        Vec<RenderManifestEntry>,
        Error,
    >)
        requires
            args.compilation.wf(),
        ensures
            manifest_outcome(r) == collect_all(
                render_manifest_answers(self.plugin_list(), args.compilation@, args.chunk_ukey),
            ),
    {
        let ghost answers = render_manifest_answers(
            self.plugin_list(),
            args.compilation@,
            args.chunk_ukey,
        );
        let mut assets: Vec<RenderManifestEntry> = Vec::new();
        let mut i: usize = 0;
        assert(assets@.map_values(|e: RenderManifestEntry| e@) =~= Seq::<
            RenderManifestEntryView,
        >::empty());
        while i < self.plugins.len()
            invariant
                i <= self.plugins.len(),
                args.compilation.wf(),
                answers == render_manifest_answers(
                    self.plugin_list(),
                    args.compilation@,
                    args.chunk_ukey,
                ),
                collect_all_upto(answers, i as int) == Ok::<
                    Seq<RenderManifestEntryView>,
                    ErrorView,
                >(assets@.map_values(|e: RenderManifestEntry| e@)),
            decreases self.plugins.len() - i,
        {
            let ghost before = assets@.map_values(|e: RenderManifestEntry| e@);
            match self.plugins[i].render_manifest(PluginContext::new(), args) {
                Ok(mut res) => {
                    let ghost more = res@.map_values(|e: RenderManifestEntry| e@);
                    assets.append(&mut res);
                    assert(assets@.map_values(|e: RenderManifestEntry| e@) =~= before + more);
                },
                Err(e) => {
                    proof {
                        lemma_collect_failure(answers, i as int);
                    }
                    return Err(e);
                },
            }
            i = i + 1;
        }
        Ok(assets)
    }

    /// Collect-all: every plugin's part of a chunk's content hash, absent
    /// parts included, in registration order, or the first failure.
    pub fn content_hash(&self, args: &ContentHashArgs<'_>) -> (r: Result<
        Vec<Option<(SourceType, String)>>,
        Error,
    >)
        requires
            args.compilation.wf(),
        ensures
            hash_parts_outcome(r) == collect_all(
                content_hash_answers(self.plugin_list(), args.compilation@, args.chunk_ukey),
            ),
    {
        let ghost answers = content_hash_answers(
            self.plugin_list(),
            args.compilation@,
            args.chunk_ukey,
        );
        let mut result: Vec<Option<(SourceType, String)>> = Vec::new();
        let mut i: usize = 0;
        assert(hash_parts(result@) =~= Seq::<Option<(SourceType, Seq<char>)>>::empty());
        while i < self.plugins.len()
            invariant
                i <= self.plugins.len(),
                args.compilation.wf(),
                answers == content_hash_answers(self.plugin_list(), args.compilation@, args.chunk_ukey),
                collect_all_upto(answers, i as int) == Ok::<
                    Seq<Option<(SourceType, Seq<char>)>>,
                    ErrorView,
                >(hash_parts(result@)),
            decreases self.plugins.len() - i,
        {
            let ghost before = hash_parts(result@);
            match self.plugins[i].content_hash(PluginContext::new(), args) {
                Ok(hash) => {
                    let ghost part = hash_part(hash);
                    result.push(hash);
                    assert(hash_parts(result@) =~= before + seq![part]);
                },
                Err(e) => {
                    proof {
                        lemma_collect_failure(answers, i as int);
                    }
                    return Err(e);
                },
            }
            i = i + 1;
        }
        Ok(result)
    }

    /// First-match: the text of the first plugin that renders the chunk.
    pub fn render_chunk(&self, args: RenderChunkArgs<'_>) -> (r: Result<Option<String>, Error>)
        requires
            args.compilation.wf(),
        ensures
            text_outcome(r) == first_match(
                render_chunk_answers(self.plugin_list(), args.compilation@, args.chunk_ukey),
            ),
    {
        let ghost answers = render_chunk_answers(
            self.plugin_list(),
            args.compilation@,
            args.chunk_ukey,
        );
        let mut i: usize = 0;
        while i < self.plugins.len()
            invariant
                i <= self.plugins.len(),
                args.compilation.wf(),
                answers == render_chunk_answers(self.plugin_list(), args.compilation@, args.chunk_ukey),
                first_match(answers) == first_match_from(answers, i as int),
            decreases self.plugins.len() - i,
        {
            match self.plugins[i].render_chunk(PluginContext::new(), &args) {
                Ok(Some(source)) => {
                    return Ok(Some(source));
                },
                Ok(None) => {},
                Err(e) => {
                    return Err(e);
                },
            }
            i = i + 1;
        }
        Ok(None)
    }

    /// First-match: the text of the first plugin that wraps the chunk's text.
    pub fn render(&self, args: RenderArgs<'_>) -> (r: Result<Option<String>, Error>)
        requires
            args.compilation.wf(),
        ensures
            text_outcome(r) == first_match(
                render_answers(self.plugin_list(), args.compilation@, args.chunk_ukey, args.source@),
            ),
    {
        let ghost answers = render_answers(
            self.plugin_list(),
            args.compilation@,
            args.chunk_ukey,
            args.source@,
        );
        let mut i: usize = 0;
        while i < self.plugins.len()
            invariant
                i <= self.plugins.len(),
                args.compilation.wf(),
                answers == render_answers(
                    self.plugin_list(),
                    args.compilation@,
                    args.chunk_ukey,
                    args.source@,
                ),
                first_match(answers) == first_match_from(answers, i as int),
            decreases self.plugins.len() - i,
        {
            match self.plugins[i].render(PluginContext::new(), &args) {
                Ok(Some(source)) => {
                    return Ok(Some(source));
                },
                Ok(None) => {},
                Err(e) => {
                    return Err(e);
                },
            }
            i = i + 1;
        }
        Ok(None)
    }

    /// First-match: the text of the first plugin that renders the startup.
    pub fn render_startup(&self, args: RenderStartupArgs<'_>) -> (r: Result<Option<String>, Error>)
        requires
            args.compilation.wf(),
        ensures
            text_outcome(r) == first_match(
                render_startup_answers(
                    self.plugin_list(),
                    args.compilation@,
                    args.chunk_ukey,
                    args.source@,
                ),
            ),
    {
        let ghost answers = render_startup_answers(
            self.plugin_list(),
            args.compilation@,
            args.chunk_ukey,
            args.source@,
        );
        let mut i: usize = 0;
        while i < self.plugins.len()
            invariant
                i <= self.plugins.len(),
                args.compilation.wf(),
                answers == render_startup_answers(
                    self.plugin_list(),
                    args.compilation@,
                    args.chunk_ukey,
                    args.source@,
                ),
                first_match(answers) == first_match_from(answers, i as int),
            decreases self.plugins.len() - i,
        {
            match self.plugins[i].render_startup(PluginContext::new(), &args) {
                Ok(Some(source)) => {
                    return Ok(Some(source));
                },
                Ok(None) => {},
                Err(e) => {
                    return Err(e);
                },
            }
            i = i + 1;
        }
        Ok(None)
    }

    /// First-match: the text of the first plugin that rewrites the module's text.
    pub fn render_module_content(&self, args: RenderModuleContentArgs<'_>) -> (r: Result<
        Option<String>,
        Error,
    >)
        requires
            args.compilation.wf(),
        ensures
            text_outcome(r) == first_match(
                render_module_content_answers(
                    self.plugin_list(),
                    args.compilation@,
                    args.module_source@,
                ),
            ),
    {
        let ghost answers = render_module_content_answers(
            self.plugin_list(),
            args.compilation@,
            args.module_source@,
        );
        let mut i: usize = 0;
        while i < self.plugins.len()
            invariant
                i <= self.plugins.len(),
                args.compilation.wf(),
                answers == render_module_content_answers(
                    self.plugin_list(),
                    args.compilation@,
                    args.module_source@,
                ),
                first_match(answers) == first_match_from(answers, i as int),
            decreases self.plugins.len() - i,
        {
            match self.plugins[i].render_module_content(PluginContext::new(), &args) {
                Ok(Some(source)) => {
                    return Ok(Some(source));
                },
                Ok(None) => {},
                Err(e) => {
                    return Err(e);
                },
            }
            i = i + 1;
        }
        Ok(None)
    }

    /// All-run: every plugin adds to the chunk's runtime requirements, each
    /// on what the plugin before it left; the first failure ends the hook.
    pub fn additional_chunk_runtime_requirements(
        &self,
        args: &mut AdditionalChunkRuntimeRequirementsArgs,
    ) -> (r: Result<(), Error>)
        ensures
            (final(args)@, unit_outcome(r)) == thread_all_from(
                self.plugin_list(),
                |p: P, a: RuntimeRequirementsView|
                    p.additional_chunk_runtime_requirements_outcome(a),
                old(args)@,
                0,
            ),
    {
        let ghost hook = |p: P, a: RuntimeRequirementsView|
            p.additional_chunk_runtime_requirements_outcome(a);
        let mut i: usize = 0;
        while i < self.plugins.len()
            invariant
                i <= self.plugins.len(),
                hook == (|p: P, a: RuntimeRequirementsView|
                    p.additional_chunk_runtime_requirements_outcome(a)),
                thread_all_from(self.plugin_list(), hook, old(args)@, 0) == thread_all_from(
                    self.plugin_list(),
                    hook,
                    args@,
                    i as int,
                ),
            decreases self.plugins.len() - i,
        {
            match self.plugins[i].additional_chunk_runtime_requirements(PluginContext::new(), args) {
                Ok(_) => {},
                Err(e) => {
                    return Err(e);
                },
            }
            i = i + 1;
        }
        Ok(())
    }

    /// All-run: every plugin adds to the runtime requirements of the tree
    /// below an entry chunk; the first failure ends the hook.
    pub fn additional_tree_runtime_requirements(
        &self,
        args: &mut AdditionalChunkRuntimeRequirementsArgs,
    ) -> (r: Result<(), Error>)
        ensures
            (final(args)@, unit_outcome(r)) == thread_all_from(
                self.plugin_list(),
                |p: P, a: RuntimeRequirementsView|
                    p.additional_tree_runtime_requirements_outcome(a),
                old(args)@,
                0,
            ),
    {
        let ghost hook = |p: P, a: RuntimeRequirementsView|
            p.additional_tree_runtime_requirements_outcome(a);
        let mut i: usize = 0;
        while i < self.plugins.len()
            invariant
                i <= self.plugins.len(),
                hook == (|p: P, a: RuntimeRequirementsView|
                    p.additional_tree_runtime_requirements_outcome(a)),
                thread_all_from(self.plugin_list(), hook, old(args)@, 0) == thread_all_from(
                    self.plugin_list(),
                    hook,
                    args@,
                    i as int,
                ),
            decreases self.plugins.len() - i,
        {
            match self.plugins[i].additional_tree_runtime_requirements(PluginContext::new(), args) {
                Ok(_) => {},
                Err(e) => {
                    return Err(e);
                },
            }
            i = i + 1;
        }
        Ok(())
    }

    /// All-run: every plugin reacts to the runtime requirements found in a
    /// tree; the first failure ends the hook.
    pub fn runtime_requirements_in_tree(
        &self,
        args: &mut AdditionalChunkRuntimeRequirementsArgs,
    ) -> (r: Result<(), Error>)
        ensures
            (final(args)@, unit_outcome(r)) == thread_all_from(
                self.plugin_list(),
                |p: P, a: RuntimeRequirementsView| p.runtime_requirements_in_tree_outcome(a),
                old(args)@,
                0,
            ),
    {
        let ghost hook = |p: P, a: RuntimeRequirementsView|
            p.runtime_requirements_in_tree_outcome(a);
        let mut i: usize = 0;
        while i < self.plugins.len()
            invariant
                i <= self.plugins.len(),
                hook == (|p: P, a: RuntimeRequirementsView|
                    p.runtime_requirements_in_tree_outcome(a)),
                thread_all_from(self.plugin_list(), hook, old(args)@, 0) == thread_all_from(
                    self.plugin_list(),
                    hook,
                    args@,
                    i as int,
                ),
            decreases self.plugins.len() - i,
        {
            match self.plugins[i].runtime_requirements_in_tree(PluginContext::new(), args) {
                Ok(_) => {},
                Err(e) => {
                    return Err(e);
                },
            }
            i = i + 1;
        }
        Ok(())
    }

    /// All-run: every plugin may regroup the chunks, each on the
    /// compilation as the plugin before it left it; the first failure ends
    /// the hook.
    pub fn optimize_chunks(&mut self, compilation: &mut Compilation) -> (r: Result<(), Error>)
        requires
            old(compilation).wf(),
        ensures
            final(compilation).wf(),
            final(self).registry() == old(self).registry(),
            final(self).pending_diagnostics() == old(self).pending_diagnostics(),
            (final(self).plugin_list(), final(compilation)@, unit_outcome(r)) == thread_all_mut_from(
                old(self).plugin_list(),
                |p: P, c: CompilationView| p.optimize_chunks_outcome(c),
                old(compilation)@,
                0,
            ),
    {
        let ghost hook = |p: P, c: CompilationView| p.optimize_chunks_outcome(c);
        let mut i: usize = 0;
        while i < self.plugins.len()
            invariant
                i <= self.plugins.len(),
                compilation.wf(),
                self.registry() == old(self).registry(),
                self.pending_diagnostics() == old(self).pending_diagnostics(),
                self.plugin_list().len() == old(self).plugin_list().len(),
                hook == (|p: P, c: CompilationView| p.optimize_chunks_outcome(c)),
                thread_all_mut_from(old(self).plugin_list(), hook, old(compilation)@, 0)
                    == thread_all_mut_from(self.plugin_list(), hook, compilation@, i as int),
            decreases self.plugins.len() - i,
        {
            let ghost before = self.plugin_list();
            let outcome = self.plugins[i].optimize_chunks(PluginContext::new(), compilation);
            assert(self.plugin_list() =~= before.update(i as int, self.plugin_list()[i as int]));
            match outcome {
                Ok(_) => {},
                Err(e) => {
                    return Err(e);
                },
            }
            i = i + 1;
        }
        Ok(())
    }

    /// All-run: every plugin may assign module ids; the first failure ends
    /// the hook.
    pub fn module_ids(&mut self, compilation: &mut Compilation) -> (r: Result<(), Error>)
        requires
            old(compilation).wf(),
        ensures
            final(compilation).wf(),
            final(self).registry() == old(self).registry(),
            final(self).pending_diagnostics() == old(self).pending_diagnostics(),
            (final(self).plugin_list(), final(compilation)@, unit_outcome(r)) == thread_all_mut_from(
                old(self).plugin_list(),
                |p: P, c: CompilationView| p.module_ids_outcome(c),
                old(compilation)@,
                0,
            ),
    {
        let ghost hook = |p: P, c: CompilationView| p.module_ids_outcome(c);
        let mut i: usize = 0;
        while i < self.plugins.len()
            invariant
                i <= self.plugins.len(),
                compilation.wf(),
                self.registry() == old(self).registry(),
                self.pending_diagnostics() == old(self).pending_diagnostics(),
                self.plugin_list().len() == old(self).plugin_list().len(),
                hook == (|p: P, c: CompilationView| p.module_ids_outcome(c)),
                thread_all_mut_from(old(self).plugin_list(), hook, old(compilation)@, 0)
                    == thread_all_mut_from(self.plugin_list(), hook, compilation@, i as int),
            decreases self.plugins.len() - i,
        {
            let ghost before = self.plugin_list();
            let outcome = self.plugins[i].module_ids(compilation);
            assert(self.plugin_list() =~= before.update(i as int, self.plugin_list()[i as int]));
            match outcome {
                Ok(_) => {},
                Err(e) => {
                    return Err(e);
                },
            }
            i = i + 1;
        }
        Ok(())
    }

    /// All-run: every plugin may assign chunk ids; the first failure ends
    /// the hook.
    pub fn chunk_ids(&mut self, compilation: &mut Compilation) -> (r: Result<(), Error>)
        requires
            old(compilation).wf(),
        ensures
            final(compilation).wf(),
            final(self).registry() == old(self).registry(),
            final(self).pending_diagnostics() == old(self).pending_diagnostics(),
            (final(self).plugin_list(), final(compilation)@, unit_outcome(r)) == thread_all_mut_from(
                old(self).plugin_list(),
                |p: P, c: CompilationView| p.chunk_ids_outcome(c),
                old(compilation)@,
                0,
            ),
    {
        let ghost hook = |p: P, c: CompilationView| p.chunk_ids_outcome(c);
        let mut i: usize = 0;
        while i < self.plugins.len()
            invariant
                i <= self.plugins.len(),
                compilation.wf(),
                self.registry() == old(self).registry(),
                self.pending_diagnostics() == old(self).pending_diagnostics(),
                self.plugin_list().len() == old(self).plugin_list().len(),
                hook == (|p: P, c: CompilationView| p.chunk_ids_outcome(c)),
                thread_all_mut_from(old(self).plugin_list(), hook, old(compilation)@, 0)
                    == thread_all_mut_from(self.plugin_list(), hook, compilation@, i as int),
            decreases self.plugins.len() - i,
        {
            let ghost before = self.plugin_list();
            let outcome = self.plugins[i].chunk_ids(compilation);
            assert(self.plugin_list() =~= before.update(i as int, self.plugin_list()[i as int]));
            match outcome {
                Ok(_) => {},
                Err(e) => {
                    return Err(e);
                },
            }
            i = i + 1;
        }
        Ok(())
    }

    /// First-match, step by step: reads a resource through the first plugin
    /// that can.
    pub fn read_resource(&self, last: Option<(usize, Result<Option<Content>, Error>)>) -> (step:
        HookStep<Result<Option<Content>, Error>>)
        ensures
            step == first_match_next(self.plugin_list().len(), last),
    {
        first_match_step(self.plugins.len(), last)
    }

    /// First-match, step by step: the module that the first plugin that
    /// knows the request makes of it.
    pub fn factorize<M>(&self, last: Option<(usize, Result<Option<M>, Error>)>) -> (step: HookStep<
        Result<Option<M>, Error>,
    >)
        ensures
            step == first_match_next(self.plugin_list().len(), last),
    {
        first_match_step(self.plugins.len(), last)
    }

    /// First-match, step by step: the module that the first plugin that
    /// wants to puts in place of the one that was made.
    pub fn module<M>(&self, last: Option<(usize, Result<Option<M>, Error>)>) -> (step: HookStep<
        Result<Option<M>, Error>,
    >)
        ensures
            step == first_match_next(self.plugin_list().len(), last),
    {
        first_match_step(self.plugins.len(), last)
    }

    /// All-run, step by step: every plugin sees the compilation that was
    /// just created.
    pub fn compilation(&self, last: Option<(usize, Result<(), Error>)>) -> (step: HookStep<
        Result<(), Error>,
    >)
        ensures
            step == run_all_next(self.plugin_list().len(), last),
    {
        run_all_step(self.plugins.len(), last)
    }

    /// All-run, step by step: every plugin sees the compilation while it is
    /// being set up, before `compilation` runs.
    pub fn this_compilation(&self, last: Option<(usize, Result<(), Error>)>) -> (step: HookStep<
        Result<(), Error>,
    >)
        ensures
            step == run_all_next(self.plugin_list().len(), last),
    {
        run_all_step(self.plugins.len(), last)
    }

    /// Staged all-run, step by step: every plugin works on the assets, stage
    /// by stage in the fixed order of the stages.
    pub fn process_assets(
        &self,
        last: Option<(ProcessAssetsStage, usize, Result<(), Error>)>,
    ) -> (step: StageStep)
        ensures
            step == process_assets_next(self.plugin_list().len(), last),
    {
        process_assets_step(self.plugins.len(), last)
    }

    /// All-run, step by step: every plugin may add to the build before the
    /// entries are followed.
    pub fn make(&self, last: Option<(usize, Result<(), Error>)>) -> (step: HookStep<
        Result<(), Error>,
    >)
        ensures
            step == run_all_next(self.plugin_list().len(), last),
    {
        run_all_step(self.plugins.len(), last)
    }

    /// All-run, step by step: every plugin sees the report of the build that ended.
    pub fn done(&self, last: Option<(usize, Result<(), Error>)>) -> (step: HookStep<
        Result<(), Error>,
    >)
        ensures
            step == run_all_next(self.plugin_list().len(), last),
    {
        run_all_step(self.plugins.len(), last)
    }

    /// All-run, step by step: every plugin may move modules between chunks.
    pub fn optimize_chunk_modules(&self, last: Option<(usize, Result<(), Error>)>) -> (step:
        HookStep<Result<(), Error>>)
        ensures
            step == run_all_next(self.plugin_list().len(), last),
    {
        run_all_step(self.plugins.len(), last)
    }

    /// All-run, step by step: every plugin sees a module before it is built.
    pub fn build_module(&self, last: Option<(usize, Result<(), Error>)>) -> (step: HookStep<
        Result<(), Error>,
    >)
        ensures
            step == run_all_next(self.plugin_list().len(), last),
    {
        run_all_step(self.plugins.len(), last)
    }

    /// All-run, step by step: every plugin sees a module that was built.
    pub fn succeed_module(&self, last: Option<(usize, Result<(), Error>)>) -> (step: HookStep<
        Result<(), Error>,
    >)
        ensures
            step == run_all_next(self.plugin_list().len(), last),
    {
        run_all_step(self.plugins.len(), last)
    }

    /// All-run, step by step: every plugin sees the compilation before its
    /// assets are written.
    pub fn emit(&self, last: Option<(usize, Result<(), Error>)>) -> (step: HookStep<
        Result<(), Error>,
    >)
        ensures
            step == run_all_next(self.plugin_list().len(), last),
    {
        run_all_step(self.plugins.len(), last)
    }

    /// All-run, step by step: every plugin sees the compilation after its
    /// assets were written.
    pub fn after_emit(&self, last: Option<(usize, Result<(), Error>)>) -> (step: HookStep<
        Result<(), Error>,
    >)
        ensures
            step == run_all_next(self.plugin_list().len(), last),
    {
        run_all_step(self.plugins.len(), last)
    }
}

/// Where the answer at `at` is a failure and all before it succeeded,
/// collect-all over any longer stretch of answers is that failure.
pub proof fn lemma_collect_failure<T, E>(answers: Seq<Result<Seq<T>, E>>, at: int)
    requires
        0 <= at < answers.len(),
        collect_all_upto(answers, at) is Ok,
        answers[at] is Err,
    ensures
        collect_all(answers) is Err,
        collect_all(answers)->Err_0 == answers[at]->Err_0,
{
    lemma_collect_failure_upto(answers, at, answers.len() as int);
}

/// As `lemma_collect_failure`, for the first `upto` answers.
pub proof fn lemma_collect_failure_upto<T, E>(answers: Seq<Result<Seq<T>, E>>, at: int, upto: int)
    requires
        0 <= at < upto <= answers.len(),
        collect_all_upto(answers, at) is Ok,
        answers[at] is Err,
    ensures
        collect_all_upto(answers, upto) is Err,
        collect_all_upto(answers, upto)->Err_0 == answers[at]->Err_0,
    decreases upto - at,
{
    if upto > at + 1 {
        lemma_collect_failure_upto(answers, at, upto - 1);
    }
}

} // verus!
