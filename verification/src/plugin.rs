//! Plugins: what a plugin can be asked at each hook, and what it says of its
//! own answers.
//!
//! Every hook comes in two parts. The executable method is what the driver
//! calls. The specification function beside it says, over mathematical
//! values, what that call answers. A plugin that is written outside the
//! verifier gives no proof that the two agree: what the driver's contracts
//! say of such a plugin rests on that agreement.

use vstd::prelude::*;
use crate::chunk::ChunkUkey;
use crate::compilation::{Compilation, CompilationView};
use crate::error::{Error, ErrorView};
use crate::module::{ModuleType, SourceType};

verus! {

/// What a plugin is handed with every hook call.
#[derive(Clone, Copy, Debug)]
pub struct PluginContext {}

impl PluginContext {
    /// A plain context.
    pub fn new() -> (ctx: Self)
        ensures
            ctx == (PluginContext {  }),
    {
        PluginContext {  }
    }
}

/// What a plugin registers when it is applied: for some module types, the
/// builder of the parser and generator for modules of that type.
pub struct ApplyContext<B> {
    pub registered_parser_and_generator_builder: Vec<(ModuleType, B)>,
}

impl<B> ApplyContext<B> {
    /// A context in which nothing is registered yet.
    pub fn new() -> (ctx: Self)
        ensures
            ctx.registered_parser_and_generator_builder@.len() == 0,
    {
        ApplyContext { registered_parser_and_generator_builder: Vec::new() }
    }

    /// Registers `builder` for modules of the type `module_type`.
    pub fn register(&mut self, module_type: ModuleType, builder: B)
        ensures
            final(self).registered_parser_and_generator_builder@ == old(
                self,
            ).registered_parser_and_generator_builder@.push((module_type, builder)),
    {
        self.registered_parser_and_generator_builder.push((module_type, builder));
    }
}

/// Which chunk a rendered file belongs to.
#[derive(Clone, Copy, Debug, PartialEq, Eq, Structural)]
pub struct PathData {
    pub chunk_ukey: ChunkUkey,
}

/// One output file that a plugin renders for a chunk.
#[derive(Debug)]
pub struct RenderManifestEntry {
    pub(crate) source: String,
    pub(crate) filename: String,
    pub path_options: PathData,
}

/// A rendered file as a mathematical value.
pub struct RenderManifestEntryView {
    pub source: Seq<char>,
    pub filename: Seq<char>,
    pub chunk_ukey: ChunkUkey,
}

impl View for RenderManifestEntry {
    type V = RenderManifestEntryView;

    open(crate) spec fn view(&self) -> RenderManifestEntryView {
        RenderManifestEntryView {
            source: self.source@,
            filename: self.filename@,
            chunk_ukey: self.path_options.chunk_ukey,
        }
    }
}

impl RenderManifestEntry {
    /// A rendered file of the given content and name, for the given chunk.
    pub fn new(source: String, filename: String, path_options: PathData) -> (entry: Self)
        ensures
            entry@ == (RenderManifestEntryView {
                source: source@,
                filename: filename@,
                chunk_ukey: path_options.chunk_ukey,
            }),
    {
        RenderManifestEntry { source, filename, path_options }
    }

    /// The file's content.
    pub fn source(&self) -> (source: &String)
        ensures
            source@ == self@.source,
    {
        &self.source
    }

    /// The file's name.
    pub fn filename(&self) -> (filename: &String)
        ensures
            filename@ == self@.filename,
    {
        &self.filename
    }
}

/// What a plugin is asked to render: one chunk of one compilation.
#[derive(Clone, Copy)]
pub struct RenderManifestArgs<'a> {
    pub compilation: &'a Compilation,
    pub chunk_ukey: ChunkUkey,
}

/// What a plugin is asked to render as a chunk's text.
#[derive(Clone, Copy)]
pub struct RenderChunkArgs<'a> {
    pub compilation: &'a Compilation,
    pub chunk_ukey: ChunkUkey,
}

/// What a plugin is asked to wrap: the text rendered for a chunk so far.
#[derive(Clone, Copy)]
pub struct RenderArgs<'a> {
    pub compilation: &'a Compilation,
    pub chunk_ukey: ChunkUkey,
    pub source: &'a String,
}

/// What a plugin is asked to add a startup to: a chunk's rendered text.
#[derive(Clone, Copy)]
pub struct RenderStartupArgs<'a> {
    pub compilation: &'a Compilation,
    pub chunk_ukey: ChunkUkey,
    pub source: &'a String,
}

/// What a plugin is asked to rewrite: the text rendered for one module.
#[derive(Clone, Copy)]
pub struct RenderModuleContentArgs<'a> {
    pub compilation: &'a Compilation,
    pub module_source: &'a String,
}

/// What a plugin is asked to hash: one chunk of one compilation.
#[derive(Clone, Copy)]
pub struct ContentHashArgs<'a> {
    pub compilation: &'a Compilation,
    pub chunk_ukey: ChunkUkey,
}

/// A chunk and the runtime requirements gathered for it so far. Plugins add
/// to the requirements.
pub struct AdditionalChunkRuntimeRequirementsArgs {
    pub chunk: ChunkUkey,
    pub runtime_requirements: Vec<String>,
}

/// Runtime requirement arguments as a mathematical value.
pub struct RuntimeRequirementsView {
    pub chunk: ChunkUkey,
    pub runtime_requirements: Seq<Seq<char>>,
}

impl View for AdditionalChunkRuntimeRequirementsArgs {
    type V = RuntimeRequirementsView;

    open spec fn view(&self) -> RuntimeRequirementsView {
        RuntimeRequirementsView {
            chunk: self.chunk,
            runtime_requirements: crate::text::text_views(self.runtime_requirements@),
        }
    }
}

/// The outcome of a hook that only succeeds or fails, as a mathematical value.
pub open spec fn unit_outcome(r: Result<(), Error>) -> Result<(), ErrorView> {
    match r {
        Ok(_) => Ok(()),
        Err(e) => Err(e@),
    }
}

/// The outcome of a hook that may answer with a text, as a mathematical value.
pub open spec fn text_outcome(r: Result<Option<String>, Error>) -> Result<
    Option<Seq<char>>,
    ErrorView,
> {
    match r {
        Ok(Some(t)) => Ok(Some(t@)),
        Ok(None) => Ok(None),
        Err(e) => Err(e@),
    }
}

/// The outcome of a manifest rendering, as a mathematical value.
pub open spec fn manifest_outcome(r: Result<Vec<RenderManifestEntry>, Error>) -> Result<
    Seq<RenderManifestEntryView>,
    ErrorView,
> {
    match r {
        Ok(entries) => Ok(entries@.map_values(|e: RenderManifestEntry| e@)),
        Err(e) => Err(e@),
    }
}

/// One plugin's part of a content hash, as a mathematical value.
pub open spec fn hash_part(part: Option<(SourceType, String)>) -> Option<(SourceType, Seq<char>)> {
    match part {
        Some((kind, text)) => Some((kind, text@)),
        None => None,
    }
}

/// The outcome of a content-hash hook, as a mathematical value.
pub open spec fn hash_outcome(r: Result<Option<(SourceType, String)>, Error>) -> Result<
    Option<(SourceType, Seq<char>)>,
    ErrorView,
> {
    match r {
        Ok(part) => Ok(hash_part(part)),
        Err(e) => Err(e@),
    }
}

/// An extension of the build.
///
/// The specification functions default to a plugin that is called
/// `unknown`, registers nothing and passes on every hook; a plugin that
/// answers otherwise says so in its own.
pub trait Plugin: Sized {
    /// The builder type that this plugin registers for module types.
    type Builder;

    /// The name that `name` answers with.
    open spec fn name_text(&self) -> Seq<char> {
        "unknown"@
    }

    /// The plugin's name, for messages. It goes by the plugin alone: asked
    /// twice, a plugin that has not changed gives the same name.
    fn name(&self) -> (name: &'static str)
        ensures
            name@ == self.name_text(),
    ;

    /// What `apply` makes of the plugin and of what is registered in the
    /// context so far, and whether it succeeds.
    open spec fn apply_outcome(&self, registered: Seq<(ModuleType, Self::Builder)>) -> (
        Self,
        Seq<(ModuleType, Self::Builder)>,
        Result<(), ErrorView>,
    ) {
        (*self, registered, Ok(()))
    }

    /// Lets the plugin register its parsers and generators in `ctx`. What
    /// the context holds afterwards, what becomes of the plugin, and whether
    /// the plugin applies at all go by the plugin and by what the context
    /// held before.
    fn apply(&mut self, ctx: &mut ApplyContext<Self::Builder>) -> (r: Result<(), Error>)
        ensures
            (
                *final(self),
                final(ctx).registered_parser_and_generator_builder@,
                unit_outcome(r),
            ) == old(self).apply_outcome(old(ctx).registered_parser_and_generator_builder@),
    ;

    /// What `render_manifest` answers for a chunk of a compilation.
    open spec fn render_manifest_outcome(
        &self,
        compilation: CompilationView,
        chunk_ukey: ChunkUkey,
    ) -> Result<Seq<RenderManifestEntryView>, ErrorView> {
        Ok(Seq::empty())
    }

    /// Renders the output files that this plugin contributes for a chunk.
    fn render_manifest(&self, ctx: PluginContext, args: RenderManifestArgs<'_>) -> (r: Result<
        Vec<RenderManifestEntry>,
        Error,
    >)
        requires
            args.compilation.wf(),
        ensures
            manifest_outcome(r) == self.render_manifest_outcome(
                args.compilation@,
                args.chunk_ukey,
            ),
    ;

    /// What `content_hash` answers for a chunk of a compilation.
    open spec fn content_hash_outcome(
        &self,
        compilation: CompilationView,
        chunk_ukey: ChunkUkey,
    ) -> Result<Option<(SourceType, Seq<char>)>, ErrorView> {
        Ok(None)
    }

    /// This plugin's part of a chunk's content hash, if it has one.
    fn content_hash(&self, ctx: PluginContext, args: &ContentHashArgs<'_>) -> (r: Result<
        Option<(SourceType, String)>,
        Error,
    >)
        requires
            args.compilation.wf(),
        ensures
            hash_outcome(r) == self.content_hash_outcome(args.compilation@, args.chunk_ukey),
    ;

    /// What `render_chunk` answers for a chunk of a compilation.
    open spec fn render_chunk_outcome(
        &self,
        compilation: CompilationView,
        chunk_ukey: ChunkUkey,
    ) -> Result<Option<Seq<char>>, ErrorView> {
        Ok(None)
    }

    /// Renders a chunk's text, or passes.
    fn render_chunk(&self, ctx: PluginContext, args: &RenderChunkArgs<'_>) -> (r: Result<
        Option<String>,
        Error,
    >)
        requires
            args.compilation.wf(),
        ensures
            text_outcome(r) == self.render_chunk_outcome(args.compilation@, args.chunk_ukey),
    ;

    /// What `render` answers for a chunk and the text rendered so far.
    open spec fn render_outcome(
        &self,
        compilation: CompilationView,
        chunk_ukey: ChunkUkey,
        source: Seq<char>,
    ) -> Result<Option<Seq<char>>, ErrorView> {
        Ok(None)
    }

    /// Wraps the text rendered for a chunk, or passes.
    fn render(&self, ctx: PluginContext, args: &RenderArgs<'_>) -> (r: Result<
        Option<String>,
        Error,
    >)
        requires
            args.compilation.wf(),
        ensures
            text_outcome(r) == self.render_outcome(
                args.compilation@,
                args.chunk_ukey,
                args.source@,
            ),
    ;

    /// What `render_startup` answers for a chunk and its rendered text.
    open spec fn render_startup_outcome(
        &self,
        compilation: CompilationView,
        chunk_ukey: ChunkUkey,
        source: Seq<char>,
    ) -> Result<Option<Seq<char>>, ErrorView> {
        Ok(None)
    }

    /// Adds the startup code to a chunk's text, or passes.
    fn render_startup(&self, ctx: PluginContext, args: &RenderStartupArgs<'_>) -> (r: Result<
        Option<String>,
        Error,
    >)
        requires
            args.compilation.wf(),
        ensures
            text_outcome(r) == self.render_startup_outcome(
                args.compilation@,
                args.chunk_ukey,
                args.source@,
            ),
    ;

    /// What `render_module_content` answers for a module's rendered text.
    open spec fn render_module_content_outcome(
        &self,
        compilation: CompilationView,
        module_source: Seq<char>,
    ) -> Result<Option<Seq<char>>, ErrorView> {
        Ok(None)
    }

    /// Rewrites the text rendered for a module, or passes.
    fn render_module_content(
        &self,
        ctx: PluginContext,
        args: &RenderModuleContentArgs<'_>,
    ) -> (r: Result<Option<String>, Error>)
        requires
            args.compilation.wf(),
        ensures
            text_outcome(r) == self.render_module_content_outcome(
                args.compilation@,
                args.module_source@,
            ),
    ;

    /// What `additional_chunk_runtime_requirements` makes of the
    /// requirements, and whether it succeeds.
    open spec fn additional_chunk_runtime_requirements_outcome(
        &self,
        args: RuntimeRequirementsView,
    ) -> (RuntimeRequirementsView, Result<(), ErrorView>) {
        (args, Ok(()))
    }

    /// Adds what a chunk needs of the runtime on account of this plugin.
    fn additional_chunk_runtime_requirements(
        &self,
        ctx: PluginContext,
        args: &mut AdditionalChunkRuntimeRequirementsArgs,
    ) -> (r: Result<(), Error>)
        ensures
            (final(args)@, unit_outcome(r)) == self.additional_chunk_runtime_requirements_outcome(
                old(args)@,
            ),
    ;

    /// What `additional_tree_runtime_requirements` makes of the
    /// requirements, and whether it succeeds.
    open spec fn additional_tree_runtime_requirements_outcome(
        &self,
        args: RuntimeRequirementsView,
    ) -> (RuntimeRequirementsView, Result<(), ErrorView>) {
        (args, Ok(()))
    }

    /// Adds what the tree below an entry chunk needs of the runtime on
    /// account of this plugin.
    fn additional_tree_runtime_requirements(
        &self,
        ctx: PluginContext,
        args: &mut AdditionalChunkRuntimeRequirementsArgs,
    ) -> (r: Result<(), Error>)
        ensures
            (final(args)@, unit_outcome(r)) == self.additional_tree_runtime_requirements_outcome(
                old(args)@,
            ),
    ;

    /// What `runtime_requirements_in_tree` makes of the requirements, and
    /// whether it succeeds.
    open spec fn runtime_requirements_in_tree_outcome(
        &self,
        args: RuntimeRequirementsView,
    ) -> (RuntimeRequirementsView, Result<(), ErrorView>) {
        (args, Ok(()))
    }

    /// Reacts to the runtime requirements found in a tree.
    fn runtime_requirements_in_tree(
        &self,
        ctx: PluginContext,
        args: &mut AdditionalChunkRuntimeRequirementsArgs,
    ) -> (r: Result<(), Error>)
        ensures
            (final(args)@, unit_outcome(r)) == self.runtime_requirements_in_tree_outcome(
                old(args)@,
            ),
    ;

    /// What `optimize_chunks` makes of the plugin and the compilation, and
    /// whether it succeeds.
    open spec fn optimize_chunks_outcome(&self, compilation: CompilationView) -> (
        Self,
        CompilationView,
        Result<(), ErrorView>,
    ) {
        (*self, compilation, Ok(()))
    }

    /// Lets the plugin regroup the chunks of a compilation.
    fn optimize_chunks(&mut self, ctx: PluginContext, compilation: &mut Compilation) -> (r: Result<
        (),
        Error,
    >)
        requires
            old(compilation).wf(),
        ensures
            final(compilation).wf(),
            (*final(self), final(compilation)@, unit_outcome(r)) == old(
                self,
            ).optimize_chunks_outcome(old(compilation)@),
    ;

    /// What `module_ids` makes of the plugin and the compilation, and
    /// whether it succeeds.
    open spec fn module_ids_outcome(&self, compilation: CompilationView) -> (
        Self,
        CompilationView,
        Result<(), ErrorView>,
    ) {
        (*self, compilation, Ok(()))
    }

    /// Lets the plugin assign ids to the modules of a compilation.
    fn module_ids(&mut self, compilation: &mut Compilation) -> (r: Result<(), Error>)
        requires
            old(compilation).wf(),
        ensures
            final(compilation).wf(),
            (*final(self), final(compilation)@, unit_outcome(r)) == old(self).module_ids_outcome(
                old(compilation)@,
            ),
    ;

    /// What `chunk_ids` makes of the plugin and the compilation, and whether
    /// it succeeds.
    open spec fn chunk_ids_outcome(&self, compilation: CompilationView) -> (
        Self,
        CompilationView,
        Result<(), ErrorView>,
    ) {
        (*self, compilation, Ok(()))
    }

    /// Lets the plugin assign ids to the chunks of a compilation.
    fn chunk_ids(&mut self, compilation: &mut Compilation) -> (r: Result<(), Error>)
        requires
            old(compilation).wf(),
        ensures
            final(compilation).wf(),
            (*final(self), final(compilation)@, unit_outcome(r)) == old(self).chunk_ids_outcome(
                old(compilation)@,
            ),
    ;
}

} // verus!
