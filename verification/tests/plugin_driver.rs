use std::sync::Arc;

use rspack_core::compilation::{AssetInfo, Compilation, CompilationAsset};
use rspack_core::error::{Diagnostic, Error, Severity};
use rspack_core::hook::{
    first_match_step, process_assets_step, run_all_step, HookStep, ProcessAssetsStage, StageStep,
};
use rspack_core::module::{ModuleType, SourceType};
use rspack_core::options::{
    CompilerOptions, DevServerOptions, OutputOptions, Target,
};
use rspack_core::plugin::{
    AdditionalChunkRuntimeRequirementsArgs, ApplyContext, ContentHashArgs, PathData, Plugin,
    PluginContext, RenderArgs, RenderChunkArgs, RenderManifestArgs, RenderManifestEntry,
    RenderModuleContentArgs, RenderStartupArgs,
};
use rspack_core::plugin_driver::{Content, PluginDriver};

/// A plugin whose every answer is scripted.
#[derive(Default)]
struct Scripted {
    label: &'static str,
    files: Vec<&'static str>,
    fail: bool,
    text: Option<&'static str>,
    hash: Option<&'static str>,
    requirement: Option<&'static str>,
    calls: usize,
}

fn failure(label: &str) -> Error {
    Error::InternalError(format!("{} failed", label))
}

impl Scripted {
    fn answer(&self) -> Result<Option<String>, Error> {
        if self.fail {
            Err(failure(self.label))
        } else {
            Ok(self.text.map(|t| format!("{}:{}", self.label, t)))
        }
    }

    fn touch(&mut self, compilation: &mut Compilation, hook: &str) -> Result<(), Error> {
        self.calls += 1;
        if self.fail {
            return Err(failure(self.label));
        }
        compilation.emit_asset(
            format!("{}.{}", self.label, hook),
            CompilationAsset::new(String::new(), AssetInfo::default()),
        );
        Ok(())
    }

    fn require(&self, args: &mut AdditionalChunkRuntimeRequirementsArgs) -> Result<(), Error> {
        if let Some(r) = self.requirement {
            args.runtime_requirements.push(format!("{}@{}", r, args.runtime_requirements.len()));
        }
        if self.fail {
            Err(failure(self.label))
        } else {
            Ok(())
        }
    }
}

impl Plugin for Scripted {
    type Builder = &'static str;

    fn name(&self) -> &'static str {
        self.label
    }

    fn apply(&mut self, ctx: &mut ApplyContext<&'static str>) -> Result<(), Error> {
        self.calls += 1;
        if self.fail {
            return Err(failure(self.label));
        }
        if self.hash.is_some() {
            ctx.register(ModuleType::Js, self.label);
        }
        if self.text.is_some() {
            ctx.register(ModuleType::Css, self.label);
        }
        Ok(())
    }

    fn render_manifest(
        &self,
        _ctx: PluginContext,
        args: RenderManifestArgs<'_>,
    ) -> Result<Vec<RenderManifestEntry>, Error> {
        if self.fail {
            return Err(failure(self.label));
        }
        Ok(self
            .files
            .iter()
            .map(|f| {
                RenderManifestEntry::new(
                    self.label.to_string(),
                    f.to_string(),
                    PathData { chunk_ukey: args.chunk_ukey },
                )
            })
            .collect())
    }

    fn content_hash(
        &self,
        _ctx: PluginContext,
        _args: &ContentHashArgs<'_>,
    ) -> Result<Option<(SourceType, String)>, Error> {
        if self.fail {
            return Err(failure(self.label));
        }
        Ok(self.hash.map(|h| (SourceType::JavaScript, h.to_string())))
    }

    fn render_chunk(
        &self,
        _ctx: PluginContext,
        _args: &RenderChunkArgs<'_>,
    ) -> Result<Option<String>, Error> {
        self.answer()
    }

    fn render(&self, _ctx: PluginContext, args: &RenderArgs<'_>) -> Result<Option<String>, Error> {
        Ok(self.answer()?.map(|t| format!("{}({})", t, args.source)))
    }

    fn render_startup(
        &self,
        _ctx: PluginContext,
        args: &RenderStartupArgs<'_>,
    ) -> Result<Option<String>, Error> {
        Ok(self.answer()?.map(|t| format!("{};{}", args.source, t)))
    }

    fn render_module_content(
        &self,
        _ctx: PluginContext,
        args: &RenderModuleContentArgs<'_>,
    ) -> Result<Option<String>, Error> {
        Ok(self.answer()?.map(|t| format!("{}<-{}", t, args.module_source)))
    }

    fn additional_chunk_runtime_requirements(
        &self,
        _ctx: PluginContext,
        args: &mut AdditionalChunkRuntimeRequirementsArgs,
    ) -> Result<(), Error> {
        self.require(args)
    }

    fn additional_tree_runtime_requirements(
        &self,
        _ctx: PluginContext,
        args: &mut AdditionalChunkRuntimeRequirementsArgs,
    ) -> Result<(), Error> {
        self.require(args)
    }

    fn runtime_requirements_in_tree(
        &self,
        _ctx: PluginContext,
        args: &mut AdditionalChunkRuntimeRequirementsArgs,
    ) -> Result<(), Error> {
        self.require(args)
    }

    fn optimize_chunks(
        &mut self,
        _ctx: PluginContext,
        compilation: &mut Compilation,
    ) -> Result<(), Error> {
        self.touch(compilation, "optimize")
    }

    fn module_ids(&mut self, compilation: &mut Compilation) -> Result<(), Error> {
        self.touch(compilation, "module_ids")
    }

    fn chunk_ids(&mut self, compilation: &mut Compilation) -> Result<(), Error> {
        self.touch(compilation, "chunk_ids")
    }
}

fn options() -> Arc<CompilerOptions> {
    Arc::new(CompilerOptions {
        entries: vec![],
        root: "/".to_string(),
        dev_server: DevServerOptions { hot: false },
        output: OutputOptions { path: "dist".to_string(), public_path: "/".to_string() },
        target: Target::Node,
    })
}

fn driver(plugins: Vec<Scripted>) -> PluginDriver<Scripted, u8> {
    PluginDriver::new(options(), plugins, 7, vec![])
}

fn plugin(label: &'static str) -> Scripted {
    Scripted { label, ..Default::default() }
}

fn asset_names(compilation: &Compilation) -> Vec<String> {
    compilation.get_stats().assets.into_iter().map(|a| a.name).collect()
}

#[test]
fn render_manifest_collects_from_every_plugin() {
    let c = Compilation::new();
    let d = driver(vec![
        Scripted { files: vec!["a.js", "a.css"], ..plugin("p0") },
        plugin("p1"),
        Scripted { files: vec!["b.js"], ..plugin("p2") },
    ]);
    let entries = d.render_manifest(RenderManifestArgs { compilation: &c, chunk_ukey: 3 }).unwrap();
    let got: Vec<(&str, &str, usize)> = entries
        .iter()
        .map(|e| (e.source().as_str(), e.filename().as_str(), e.path_options.chunk_ukey))
        .collect();
    assert_eq!(got, vec![("p0", "a.js", 3), ("p0", "a.css", 3), ("p2", "b.js", 3)]);
    let none = driver(vec![]);
    assert!(none
        .render_manifest(RenderManifestArgs { compilation: &c, chunk_ukey: 0 })
        .unwrap()
        .is_empty());
}

#[test]
fn render_manifest_stops_at_the_first_failure() {
    let c = Compilation::new();
    let d = driver(vec![
        Scripted { files: vec!["a.js"], ..plugin("p0") },
        Scripted { fail: true, ..plugin("p1") },
        Scripted { fail: true, ..plugin("p2") },
    ]);
    let r = d.render_manifest(RenderManifestArgs { compilation: &c, chunk_ukey: 0 });
    assert!(matches!(r, Err(Error::InternalError(ref m)) if m == "p1 failed"));
}

#[test]
fn content_hash_keeps_absent_parts() {
    let c = Compilation::new();
    let d = driver(vec![
        plugin("p0"),
        Scripted { hash: Some("h1"), ..plugin("p1") },
        plugin("p2"),
    ]);
    let parts = d.content_hash(&ContentHashArgs { compilation: &c, chunk_ukey: 0 }).unwrap();
    assert_eq!(parts, vec![None, Some((SourceType::JavaScript, "h1".to_string())), None]);
    let failing = driver(vec![Scripted { hash: Some("h"), ..plugin("p0") }, Scripted {
        fail: true,
        ..plugin("p1")
    }]);
    assert!(failing.content_hash(&ContentHashArgs { compilation: &c, chunk_ukey: 0 }).is_err());
}

#[test]
fn first_plugin_that_answers_wins() {
    let c = Compilation::new();
    let source = "src".to_string();
    let d = driver(vec![
        plugin("p0"),
        Scripted { text: Some("x"), ..plugin("p1") },
        Scripted { text: Some("y"), ..plugin("p2") },
        Scripted { fail: true, ..plugin("p3") },
    ]);
    assert_eq!(
        d.render_chunk(RenderChunkArgs { compilation: &c, chunk_ukey: 0 }).unwrap().unwrap(),
        "p1:x"
    );
    assert_eq!(
        d.render(RenderArgs { compilation: &c, chunk_ukey: 0, source: &source })
            .unwrap()
            .unwrap(),
        "p1:x(src)"
    );
    assert_eq!(
        d.render_startup(RenderStartupArgs { compilation: &c, chunk_ukey: 0, source: &source })
            .unwrap()
            .unwrap(),
        "src;p1:x"
    );
    assert_eq!(
        d.render_module_content(RenderModuleContentArgs { compilation: &c, module_source: &source })
            .unwrap()
            .unwrap(),
        "p1:x<-src"
    );
}

#[test]
fn first_match_passes_on_failures_and_silence() {
    let c = Compilation::new();
    let source = String::new();
    let silent = driver(vec![plugin("p0"), plugin("p1")]);
    assert!(silent.render_chunk(RenderChunkArgs { compilation: &c, chunk_ukey: 0 }).unwrap().is_none());
    assert!(silent
        .render(RenderArgs { compilation: &c, chunk_ukey: 0, source: &source })
        .unwrap()
        .is_none());
    let failing = driver(vec![
        plugin("p0"),
        Scripted { fail: true, ..plugin("p1") },
        Scripted { text: Some("late"), ..plugin("p2") },
    ]);
    let r = failing.render_chunk(RenderChunkArgs { compilation: &c, chunk_ukey: 0 });
    assert!(matches!(r, Err(Error::InternalError(ref m)) if m == "p1 failed"));
    assert!(failing
        .render_startup(RenderStartupArgs { compilation: &c, chunk_ukey: 0, source: &source })
        .is_err());
    assert!(failing
        .render_module_content(RenderModuleContentArgs { compilation: &c, module_source: &source })
        .is_err());
}

#[test]
fn runtime_requirements_pass_from_plugin_to_plugin() {
    let d = driver(vec![
        Scripted { requirement: Some("a"), ..plugin("p0") },
        plugin("p1"),
        Scripted { requirement: Some("b"), ..plugin("p2") },
    ]);
    let mut args =
        AdditionalChunkRuntimeRequirementsArgs { chunk: 0, runtime_requirements: vec![] };
    d.additional_chunk_runtime_requirements(&mut args).unwrap();
    assert_eq!(args.runtime_requirements, vec!["a@0", "b@1"]);
    d.additional_tree_runtime_requirements(&mut args).unwrap();
    d.runtime_requirements_in_tree(&mut args).unwrap();
    assert_eq!(args.runtime_requirements, vec!["a@0", "b@1", "a@2", "b@3", "a@4", "b@5"]);
}

#[test]
fn runtime_requirements_stop_at_the_first_failure() {
    let d = driver(vec![
        Scripted { requirement: Some("a"), ..plugin("p0") },
        Scripted { requirement: Some("b"), fail: true, ..plugin("p1") },
        Scripted { requirement: Some("c"), ..plugin("p2") },
    ]);
    let mut args =
        AdditionalChunkRuntimeRequirementsArgs { chunk: 0, runtime_requirements: vec![] };
    assert!(d.additional_chunk_runtime_requirements(&mut args).is_err());
    assert_eq!(args.runtime_requirements, vec!["a@0", "b@1"]);
}

#[test]
fn lifecycle_hooks_run_every_plugin_in_order() {
    let mut c = Compilation::new();
    let mut d = driver(vec![plugin("p0"), plugin("p1")]);
    d.optimize_chunks(&mut c).unwrap();
    d.module_ids(&mut c).unwrap();
    d.chunk_ids(&mut c).unwrap();
    assert_eq!(
        asset_names(&c),
        vec![
            "p0.optimize",
            "p1.optimize",
            "p0.module_ids",
            "p1.module_ids",
            "p0.chunk_ids",
            "p1.chunk_ids"
        ]
    );
    assert_eq!(d.plugins()[0].calls, 3);
    assert_eq!(d.plugins()[1].name(), "p1");
}

#[test]
fn lifecycle_hook_stops_at_the_first_failure() {
    let mut c = Compilation::new();
    let mut d = driver(vec![plugin("p0"), Scripted { fail: true, ..plugin("p1") }, plugin("p2")]);
    let r = d.optimize_chunks(&mut c);
    assert!(matches!(r, Err(Error::InternalError(ref m)) if m == "p1 failed"));
    assert_eq!(asset_names(&c), vec!["p0.optimize"]);
    let calls: Vec<usize> = d.plugins().iter().map(|p| p.calls).collect();
    assert_eq!(calls, vec![1, 1, 0]);
    assert!(d.module_ids(&mut c).is_err());
    assert!(d.chunk_ids(&mut c).is_err());
    d.plugins_mut()[1].fail = false;
    assert!(d.chunk_ids(&mut c).is_ok());
}

#[test]
fn later_registration_stands() {
    let mut first = ApplyContext::new();
    first.register(ModuleType::Js, "js-one");
    first.register(ModuleType::Css, "css-one");
    let second = ApplyContext::new();
    let mut third = ApplyContext::new();
    third.register(ModuleType::Js, "js-three");
    third.register(ModuleType::Asset, "asset-three");
    third.register(ModuleType::Asset, "asset-three-again");
    let d: PluginDriver<Scripted, u8> = PluginDriver::new(
        options(),
        vec![plugin("p0"), plugin("p1"), plugin("p2")],
        7,
        vec![first, second, third],
    );
    assert_eq!(d.parser_and_generator_builder(ModuleType::Js), Some(&"js-three"));
    assert_eq!(d.parser_and_generator_builder(ModuleType::Css), Some(&"css-one"));
    assert_eq!(d.parser_and_generator_builder(ModuleType::Asset), Some(&"asset-three-again"));
    assert_eq!(d.parser_and_generator_builder(ModuleType::Json), None);
    assert_eq!(*d.resolver_factory(), 7);
    assert_eq!(d.options().root, "/");
    assert_eq!(d.plugins().len(), 3);
}

#[test]
fn diagnostics_are_taken_once() {
    let mut d = driver(vec![]);
    assert!(d.take_diagnostic().is_empty());
    for m in ["one", "two"] {
        d.report(Diagnostic {
            severity: Severity::Error,
            title: "Syntax Error".to_string(),
            message: m.to_string(),
        });
    }
    let taken = d.take_diagnostic();
    let messages: Vec<&str> = taken.iter().map(|t| t.message.as_str()).collect();
    assert_eq!(messages, vec!["one", "two"]);
    assert!(d.take_diagnostic().is_empty());
}

/// Runs a step-by-step hook to its end and tells which plugins were invoked.
fn run_steps<T>(
    mut step: HookStep<Result<T, Error>>,
    mut next: impl FnMut(usize) -> HookStep<Result<T, Error>>,
) -> (Vec<usize>, Result<T, Error>) {
    let mut invoked = vec![];
    loop {
        match step {
            HookStep::Invoke(i) => {
                invoked.push(i);
                step = next(i);
            }
            HookStep::Done(r) => return (invoked, r),
        }
    }
}

#[test]
fn all_run_steps_visit_every_plugin() {
    let d = driver(vec![plugin("p0"), plugin("p1"), plugin("p2")]);
    let (invoked, r) = run_steps(d.make(None), |i| d.make(Some((i, Ok(())))));
    assert_eq!(invoked, vec![0, 1, 2]);
    assert!(r.is_ok());
    let (invoked, r) = run_steps(d.emit(None), |i| {
        d.emit(Some((i, if i == 1 { Err(Error::Io("disk".to_string())) } else { Ok(()) })))
    });
    assert_eq!(invoked, vec![0, 1]);
    assert!(matches!(r, Err(Error::Io(ref m)) if m == "disk"));
    let none = driver(vec![]);
    assert!(matches!(none.done(None), HookStep::Done(Ok(()))));
    for step in [
        d.compilation(None),
        d.this_compilation(None),
        d.done(None),
        d.optimize_chunk_modules(None),
        d.build_module(None),
        d.succeed_module(None),
        d.after_emit(None),
    ] {
        assert!(matches!(step, HookStep::Invoke(0)));
    }
    for step in [
        d.compilation(Some((2, Ok(())))),
        d.this_compilation(Some((2, Ok(())))),
        d.optimize_chunk_modules(Some((2, Ok(())))),
        d.build_module(Some((2, Ok(())))),
        d.succeed_module(Some((2, Ok(())))),
        d.after_emit(Some((2, Ok(())))),
    ] {
        assert!(matches!(step, HookStep::Done(Ok(()))));
    }
    assert!(matches!(run_all_step(2, Some((usize::MAX, Ok(())))), HookStep::Done(Ok(()))));
    assert!(matches!(run_all_step(2, Some((0, Ok(())))), HookStep::Invoke(1)));
}

#[test]
fn first_match_steps_stop_at_the_first_answer() {
    let d = driver(vec![plugin("p0"), plugin("p1"), plugin("p2")]);
    let (invoked, r) = run_steps(d.read_resource(None), |i| {
        d.read_resource(Some((
            i,
            Ok(if i == 1 { Some(Content::String("text".to_string())) } else { None }),
        )))
    });
    assert_eq!(invoked, vec![0, 1]);
    assert!(matches!(r, Ok(Some(Content::String(ref t))) if t == "text"));
    let (invoked, r) =
        run_steps(d.factorize::<u8>(None), |i| d.factorize(Some((i, Ok(None)))));
    assert_eq!(invoked, vec![0, 1, 2]);
    assert!(matches!(r, Ok(None)));
    let (invoked, r) = run_steps(d.module::<u8>(None), |i| {
        d.module(Some((i, if i == 0 { Err(Error::InternalError("m".to_string())) } else { Ok(Some(1)) })))
    });
    assert_eq!(invoked, vec![0]);
    assert!(r.is_err());
    let none = driver(vec![]);
    assert!(matches!(none.read_resource(None), HookStep::Done(Ok(None))));
    assert!(matches!(first_match_step::<u8>(3, Some((1, Ok(Some(9))))), HookStep::Done(Ok(Some(9)))));
}

#[test]
fn asset_stages_run_one_after_the_other() {
    let d = driver(vec![plugin("p0"), plugin("p1")]);
    let mut calls = vec![];
    let mut step = d.process_assets(None);
    let result = loop {
        match step {
            StageStep::Invoke(stage, i) => {
                calls.push((stage, i));
                step = d.process_assets(Some((stage, i, Ok(()))));
            }
            StageStep::Done(r) => break r,
        }
    };
    assert!(result.is_ok());
    let stages = [
        ProcessAssetsStage::Additional,
        ProcessAssetsStage::PreProcess,
        ProcessAssetsStage::Unstaged,
        ProcessAssetsStage::OptimizeSize,
        ProcessAssetsStage::DevTooling,
        ProcessAssetsStage::OptimizeInline,
        ProcessAssetsStage::Summarize,
        ProcessAssetsStage::Report,
    ];
    let expected: Vec<(ProcessAssetsStage, usize)> =
        stages.iter().flat_map(|s| [(*s, 0), (*s, 1)]).collect();
    assert_eq!(calls, expected);
    assert_eq!(ProcessAssetsStage::Report.next(), None);
    assert_eq!(ProcessAssetsStage::Additional.next(), Some(ProcessAssetsStage::PreProcess));
}

#[test]
fn asset_stage_failure_ends_the_hook() {
    let d = driver(vec![plugin("p0"), plugin("p1")]);
    let step = d.process_assets(Some((
        ProcessAssetsStage::PreProcess,
        0,
        Err(Error::InternalError("stage".to_string())),
    )));
    assert!(matches!(step, StageStep::Done(Err(Error::InternalError(ref m))) if m == "stage"));
    assert!(matches!(driver(vec![]).process_assets(None), StageStep::Done(Ok(()))));
    assert!(matches!(
        process_assets_step(2, Some((ProcessAssetsStage::Report, 1, Ok(())))),
        StageStep::Done(Ok(()))
    ));
    assert!(matches!(
        process_assets_step(2, Some((ProcessAssetsStage::Summarize, 1, Ok(())))),
        StageStep::Invoke(ProcessAssetsStage::Report, 0)
    ));
}

#[test]
fn applied_plugins_register_their_builders() {
    let mut plugins = vec![
        Scripted { hash: Some("h"), text: Some("t"), ..plugin("p0") },
        plugin("p1"),
        Scripted { hash: Some("h"), ..plugin("p2") },
    ];
    let mut applied = vec![];
    for p in plugins.iter_mut() {
        let mut ctx = ApplyContext::new();
        assert!(p.apply(&mut ctx).is_ok());
        applied.push(ctx);
    }
    let registered: Vec<usize> =
        applied.iter().map(|c| c.registered_parser_and_generator_builder.len()).collect();
    assert_eq!(registered, vec![2, 0, 1]);
    let d: PluginDriver<Scripted, u8> = PluginDriver::new(options(), plugins, 7, applied);
    assert_eq!(d.parser_and_generator_builder(ModuleType::Js), Some(&"p2"));
    assert_eq!(d.parser_and_generator_builder(ModuleType::Css), Some(&"p0"));
    assert_eq!(d.parser_and_generator_builder(ModuleType::Asset), None);
    let names: Vec<&str> = d.plugins().iter().map(|p| p.name()).collect();
    assert_eq!(names, vec!["p0", "p1", "p2"]);
    assert!(d.plugins().iter().all(|p| p.calls == 1));
}

#[test]
fn plugin_that_fails_to_apply_registers_nothing() {
    let mut failing = Scripted { fail: true, hash: Some("h"), ..plugin("p0") };
    let mut ctx = ApplyContext::new();
    let r = failing.apply(&mut ctx);
    assert!(matches!(r, Err(Error::InternalError(ref m)) if m == "p0 failed"));
    assert!(ctx.registered_parser_and_generator_builder.is_empty());
}
