//! The compiler: the last good build, the plugins, and the cache.

use std::sync::Arc;
use vstd::prelude::*;
use crate::cache::Cache;
use crate::compilation::{asset_summary, Compilation, CompilationView, Stats};
use crate::options::CompilerOptions;
use crate::plugin::{ApplyContext, Plugin};
use crate::plugin_driver::PluginDriver;

verus! {

/// Holds the last good compilation across rebuilds, with the plugin driver
/// and the cache that every build shares.
pub struct Compiler<P: Plugin, R> {
    pub(crate) options: Arc<CompilerOptions>,
    pub(crate) compilation: Compilation,
    pub(crate) plugin_driver: PluginDriver<P, R>,
    pub(crate) cache: Cache,
}

impl<P: Plugin, R> Compiler<P, R> {
    /// The last good compilation, as a mathematical value.
    pub open(crate) spec fn current(&self) -> CompilationView {
        self.compilation@
    }

    /// The plugins, in registration order.
    pub open(crate) spec fn plugin_list(&self) -> Seq<P> {
        self.plugin_driver.plugin_list()
    }

    /// The options the compiler was made with.
    pub open(crate) spec fn options_spec(&self) -> Arc<CompilerOptions> {
        self.options
    }

    /// The plugin driver.
    pub open(crate) spec fn driver(&self) -> PluginDriver<P, R> {
        self.plugin_driver
    }

    /// Whether the cache idles.
    pub open(crate) spec fn cache_idle(&self) -> bool {
        self.cache.idle_spec()
    }

    /// How often the cache's idling has been paused.
    pub open(crate) spec fn cache_pauses(&self) -> u64 {
        self.cache.pauses_spec()
    }

    /// What the plugins reported and no build has taken in yet, oldest first.
    pub open(crate) spec fn pending_diagnostics(&self) -> Seq<crate::error::Diagnostic> {
        self.plugin_driver.pending_diagnostics()
    }

    /// The compiler's invariant: that of its compilation and of its driver.
    pub open(crate) spec fn wf(&self) -> bool {
        self.compilation.wf() && self.plugin_driver.wf()
    }

    /// A compiler that has built nothing yet. `applied` holds what each
    /// plugin registered when it was applied.
    pub fn new(
        options: Arc<CompilerOptions>,
        plugins: Vec<P>,
        resolver_factory: R,
        applied: Vec<ApplyContext<P::Builder>>,
    ) -> (compiler: Self)
        ensures
            compiler.wf(),
            compiler.current() == CompilationView::fresh(),
            compiler.plugin_list() == plugins@,
            compiler.options_spec() == options,
            compiler.cache_idle(),
            compiler.cache_pauses() == 0,
            compiler.pending_diagnostics().len() == 0,
    {
        let driver_options = options.clone();
        Compiler {
            options,
            compilation: Compilation::new(),
            plugin_driver: PluginDriver::new(driver_options, plugins, resolver_factory, applied),
            cache: Cache::new(),
        }
    }

    /// The compiler's options.
    pub fn options(&self) -> (options: &Arc<CompilerOptions>)
        ensures
            *options == self.options_spec(),
    {
        &self.options
    }

    /// The last good compilation.
    pub fn compilation(&self) -> (compilation: &Compilation)
        ensures
            compilation@ == self.current(),
            self.wf() ==> compilation.wf(),
    {
        &self.compilation
    }

    /// The plugin driver.
    pub fn plugin_driver(&self) -> (driver: &PluginDriver<P, R>)
        ensures
            *driver == self.driver(),
            driver.plugin_list() == self.plugin_list(),
            self.wf() ==> driver.wf(),
    {
        &self.plugin_driver
    }

    /// The plugin driver, to be worked on in place.
    pub fn plugin_driver_mut(&mut self) -> (driver: &mut PluginDriver<P, R>)
        ensures
            *driver == old(self).driver(),
            final(self).driver() == *final(driver),
            final(self).current() == old(self).current(),
            final(self).cache_idle() == old(self).cache_idle(),
            final(self).cache_pauses() == old(self).cache_pauses(),
            final(self).options_spec() == old(self).options_spec(),
            old(self).wf() && final(driver).wf() ==> final(self).wf(),
    {
        &mut self.plugin_driver
    }

    /// The cache.
    pub fn cache(&self) -> (cache: &Cache)
        ensures
            cache.idle_spec() == self.cache_idle(),
            cache.pauses_spec() == self.cache_pauses(),
    {
        &self.cache
    }

    /// The report of the last good build.
    pub fn stats(&self) -> (stats: Stats)
        requires
            self.wf(),
        ensures
            stats.asset_list() == asset_summary(self.current().assets),
            stats.diagnostic_list() == self.current().diagnostics,
    {
        self.compilation.get_stats()
    }

    /// Starts a build: pauses the cache's idling and hands out the empty
    /// compilation that the build is to fill. The last good compilation
    /// stays as it is.
    pub fn begin_rebuild(&mut self) -> (fresh: Compilation)
        requires
            old(self).wf(),
        ensures
            final(self).wf(),
            !final(self).cache_idle(),
            final(self).cache_pauses() == if old(self).cache_idle() && old(self).cache_pauses()
                < u64::MAX {
                (old(self).cache_pauses() + 1) as u64
            } else {
                old(self).cache_pauses()
            },
            final(self).current() == old(self).current(),
            final(self).driver() == old(self).driver(),
            final(self).options_spec() == old(self).options_spec(),
            fresh.wf(),
            fresh@ == CompilationView::fresh(),
    {
        self.cache.end_idle();
        Compilation::new()
    }
}

} // verus!
