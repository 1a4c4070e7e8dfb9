use std::sync::Arc;

use rspack_core::chunk::{Chunk, ChunkGroup, ChunkKind};
use rspack_core::compilation::{Compilation, CompilationState};
use rspack_core::compiler::Compiler;
use rspack_core::error::{Diagnostic, Error, Severity};
use rspack_core::module::{
    module_identifier, CodeGenerationResult, DependencyKind, Module, ModuleType, ResourceData,
    SourceType,
};
use rspack_core::options::{
    CompilerOptions, DevServerOptions, EntryItem, OutputOptions, Target,
};
use rspack_core::plugin::{
    AdditionalChunkRuntimeRequirementsArgs, ApplyContext, ContentHashArgs, PathData, Plugin,
    PluginContext,
    RenderArgs, RenderChunkArgs, RenderManifestArgs, RenderManifestEntry,
    RenderModuleContentArgs, RenderStartupArgs,
};
use rspack_core::runtime::RuntimeSpec;

/// Renders an update chunk as the JavaScript of its modules, in graph order.
struct JsRenderer {
    fail: bool,
}

impl Plugin for JsRenderer {
    type Builder = ();

    fn name(&self) -> &'static str {
        "js-renderer"
    }

    fn apply(&mut self, _ctx: &mut ApplyContext<()>) -> Result<(), Error> {
        Ok(())
    }

    fn render_manifest(
        &self,
        _ctx: PluginContext,
        args: RenderManifestArgs<'_>,
    ) -> Result<Vec<RenderManifestEntry>, Error> {
        if self.fail {
            return Err(Error::InternalError("cannot render".to_string()));
        }
        let compilation = args.compilation;
        let mut out = String::new();
        for module in compilation.module_graph().modules() {
            let id = module.identifier();
            if compilation.chunk_graph().is_module_in_chunk(id, args.chunk_ukey) {
                if let Some(result) = compilation.code_generation_result(id) {
                    if let Some(code) = result.get(SourceType::JavaScript) {
                        out.push_str(code);
                    }
                }
            }
        }
        Ok(vec![RenderManifestEntry::new(
            out,
            "update.js".to_string(),
            PathData { chunk_ukey: args.chunk_ukey },
        )])
    }

    fn content_hash(
        &self,
        _ctx: PluginContext,
        _args: &ContentHashArgs<'_>,
    ) -> Result<Option<(SourceType, String)>, Error> {
        Ok(None)
    }

    fn render_chunk(
        &self,
        _ctx: PluginContext,
        _args: &RenderChunkArgs<'_>,
    ) -> Result<Option<String>, Error> {
        Ok(None)
    }

    fn render(&self, _ctx: PluginContext, _args: &RenderArgs<'_>) -> Result<Option<String>, Error> {
        Ok(None)
    }

    fn render_startup(
        &self,
        _ctx: PluginContext,
        _args: &RenderStartupArgs<'_>,
    ) -> Result<Option<String>, Error> {
        Ok(None)
    }

    fn render_module_content(
        &self,
        _ctx: PluginContext,
        _args: &RenderModuleContentArgs<'_>,
    ) -> Result<Option<String>, Error> {
        Ok(None)
    }

    fn additional_chunk_runtime_requirements(
        &self,
        _ctx: PluginContext,
        _args: &mut AdditionalChunkRuntimeRequirementsArgs,
    ) -> Result<(), Error> {
        Ok(())
    }

    fn additional_tree_runtime_requirements(
        &self,
        _ctx: PluginContext,
        _args: &mut AdditionalChunkRuntimeRequirementsArgs,
    ) -> Result<(), Error> {
        Ok(())
    }

    fn runtime_requirements_in_tree(
        &self,
        _ctx: PluginContext,
        _args: &mut AdditionalChunkRuntimeRequirementsArgs,
    ) -> Result<(), Error> {
        Ok(())
    }

    fn optimize_chunks(
        &mut self,
        _ctx: PluginContext,
        _compilation: &mut Compilation,
    ) -> Result<(), Error> {
        Ok(())
    }

    fn module_ids(&mut self, _compilation: &mut Compilation) -> Result<(), Error> {
        Ok(())
    }

    fn chunk_ids(&mut self, _compilation: &mut Compilation) -> Result<(), Error> {
        Ok(())
    }
}

fn options() -> Arc<CompilerOptions> {
    Arc::new(CompilerOptions {
        entries: vec![("main".to_string(), EntryItem { path: "./a.js".to_string() })],
        root: "/project".to_string(),
        dev_server: DevServerOptions { hot: true },
        output: OutputOptions { path: "dist".to_string(), public_path: "/".to_string() },
        target: Target::Web,
    })
}

fn resource(path: &str) -> ResourceData {
    ResourceData {
        resource: path.to_string(),
        resource_path: path.to_string(),
        resource_query: None,
        resource_fragment: None,
    }
}

fn js_id(path: &str) -> String {
    module_identifier(ModuleType::Js, &resource(path))
}

fn add_js(compilation: &mut Compilation, path: &str, code: &str) -> String {
    let module = Module::normal(ModuleType::Js, resource(path));
    let id = module.identifier().clone();
    assert!(compilation.add_module(module, None));
    let mut generated = CodeGenerationResult::new();
    generated.add(SourceType::JavaScript, code.to_string());
    compilation.set_code_generation_result(id.clone(), generated);
    id
}

/// A stylesheet module carries its code itself; nothing is put by for it.
fn add_css(compilation: &mut Compilation, path: &str, code: &str) -> String {
    let mut module = Module::normal(ModuleType::Css, resource(path));
    module.set_generated(SourceType::Css, code.to_string());
    let id = module.identifier().clone();
    assert!(compilation.add_module(module, None));
    id
}

fn add_asset(compilation: &mut Compilation, path: &str, code: &str) -> String {
    let module = Module::normal(ModuleType::Asset, resource(path));
    let id = module.identifier().clone();
    assert!(compilation.add_module(module, None));
    let mut generated = CodeGenerationResult::new();
    generated.add(SourceType::JavaScript, code.to_string());
    compilation.set_code_generation_result(id.clone(), generated);
    id
}

/// One entry per pair of entry name and chunk id; the chunk of each entry
/// holds every module and is valid for the runtime of the entry's name.
fn build_entries(entries: &[(&str, &str)], modules: &[(&str, &str)]) -> Compilation {
    let mut compilation = Compilation::new();
    let mut ids = Vec::new();
    for (path, code) in modules {
        ids.push(add_js(&mut compilation, path, code));
    }
    for (name, chunk_id) in entries {
        let mut runtime = RuntimeSpec::new();
        runtime.insert(name.to_string());
        let group = compilation.add_chunk_group(ChunkGroup::new(Some(runtime)));
        let chunk = compilation
            .add_chunk(Chunk::new(Some(chunk_id.to_string()), chunk_id.to_string(), ChunkKind::Entry))
            .unwrap();
        assert!(compilation.add_chunk_to_group(chunk, group));
        compilation.add_entrypoint(name.to_string(), group);
        for id in &ids {
            assert!(compilation.connect_chunk_and_module(chunk, id.clone()));
        }
    }
    compilation
}

/// Entry `main` with the runtime `main`, one chunk `main` holding the modules given.
fn build(modules: &[(&str, &str)]) -> Compilation {
    let mut compilation = Compilation::new();
    let mut ids = Vec::new();
    for (path, code) in modules {
        ids.push(add_js(&mut compilation, path, code));
    }
    if ids.len() == 2 {
        assert!(compilation.add_dependency(&ids[0], &ids[1], DependencyKind::EsmImport));
    }
    let mut runtime = RuntimeSpec::new();
    runtime.insert("main".to_string());
    let group = compilation.add_chunk_group(ChunkGroup::new(Some(runtime)));
    let chunk = compilation
        .add_chunk(Chunk::new(Some("main".to_string()), "main".to_string(), ChunkKind::Entry))
        .unwrap();
    assert!(compilation.add_chunk_to_group(chunk, group));
    compilation.add_entrypoint("main".to_string(), group);
    for id in ids {
        assert!(compilation.connect_chunk_and_module(chunk, id));
    }
    compilation
}

fn compiler_with(first: Compilation, fail: bool) -> Compiler<JsRenderer, ()> {
    let mut compiler = Compiler::new(options(), vec![JsRenderer { fail }], (), vec![]);
    assert!(compiler.rebuild(vec![], vec![], Ok(first)).is_ok());
    compiler
}

fn asset_text(compiler: &Compiler<JsRenderer, ()>, name: &str) -> Option<String> {
    compiler.compilation().asset(name).map(|a| a.source.clone())
}

#[test]
fn edited_module_is_sent_alone() {
    let mut compiler = compiler_with(build(&[("/a.js", "A1"), ("/b.js", "B1")]), false);
    let fresh = compiler.begin_rebuild();
    assert_eq!(fresh.state(), CompilationState::Created);
    assert!(!compiler.cache().is_idle());
    let next = build(&[("/a.js", "A1"), ("/b.js", "B2")]);
    let stats = compiler.rebuild(vec!["/b.js".to_string()], vec![], Ok(next)).unwrap();
    assert!(compiler.cache().is_idle());
    assert_eq!(
        asset_text(&compiler, "main.hot-update.json").unwrap(),
        "{\"c\":[\"main\"],\"r\":[],\"m\":[]}"
    );
    assert_eq!(asset_text(&compiler, "main.hot-update.js").unwrap(), "B2");
    let names: Vec<&str> = stats.assets.iter().map(|a| a.name.as_str()).collect();
    assert_eq!(names, vec!["main.hot-update.js", "main.hot-update.json"]);
    assert!(stats.assets.iter().all(|a| a.info.hot_module_replacement));
}

#[test]
fn deleted_module_is_named_in_the_manifest() {
    let mut compiler = compiler_with(build(&[("/a.js", "A1"), ("/b.js", "B1")]), false);
    let next = build(&[("/a.js", "A1")]);
    compiler.begin_rebuild();
    compiler.rebuild(vec![], vec!["/b.js".to_string()], Ok(next)).unwrap();
    let manifest = asset_text(&compiler, "main.hot-update.json").unwrap();
    let expected = format!("{{\"c\":[],\"r\":[],\"m\":[\"{}\"]}}", js_id("/b.js"));
    assert_eq!(manifest, expected);
    assert!(asset_text(&compiler, "main.hot-update.js").is_none());
}

#[test]
fn rebuild_without_changes_updates_nothing() {
    let mut compiler = compiler_with(build(&[("/a.js", "A1"), ("/b.js", "B1")]), false);
    let next = build(&[("/a.js", "A1"), ("/b.js", "B1")]);
    let stats = compiler.rebuild(vec![], vec![], Ok(next)).unwrap();
    assert_eq!(
        asset_text(&compiler, "main.hot-update.json").unwrap(),
        "{\"c\":[],\"r\":[],\"m\":[]}"
    );
    assert!(asset_text(&compiler, "main.hot-update.js").is_none());
    assert_eq!(stats.assets.len(), 1);
    assert_eq!(compiler.compilation().chunk_count(), 1);
}

#[test]
fn changed_file_with_equal_code_is_no_update() {
    let mut compiler = compiler_with(build(&[("/a.js", "A1"), ("/b.js", "B1")]), false);
    let next = build(&[("/a.js", "A1"), ("/b.js", "B1")]);
    compiler
        .rebuild(vec!["/a.js".to_string(), "/b.js".to_string()], vec![], Ok(next))
        .unwrap();
    assert_eq!(
        asset_text(&compiler, "main.hot-update.json").unwrap(),
        "{\"c\":[],\"r\":[],\"m\":[]}"
    );
    assert!(asset_text(&compiler, "main.hot-update.js").is_none());
}

#[test]
fn second_rebuild_without_changes_yields_the_same_assets() {
    let mut compiler = compiler_with(build(&[("/a.js", "A1")]), false);
    let first = compiler.rebuild(vec![], vec![], Ok(build(&[("/a.js", "A1")]))).unwrap();
    let second = compiler.rebuild(vec![], vec![], Ok(build(&[("/a.js", "A1")]))).unwrap();
    let names = |stats: &rspack_core::compilation::Stats| -> Vec<String> {
        stats.assets.iter().map(|a| a.name.clone()).collect()
    };
    assert_eq!(names(&first), names(&second));
    assert_eq!(names(&first), vec!["main.hot-update.json".to_string()]);
    assert_eq!(compiler.compilation().chunk_count(), 1);
}

#[test]
fn both_modules_edited_are_sent_in_graph_order() {
    let mut compiler = compiler_with(build(&[("/a.js", "A1"), ("/b.js", "B1")]), false);
    let next = build(&[("/a.js", "A2"), ("/b.js", "B2")]);
    compiler
        .rebuild(vec!["/b.js".to_string(), "/a.js".to_string()], vec![], Ok(next))
        .unwrap();
    assert_eq!(asset_text(&compiler, "main.hot-update.js").unwrap(), "A2B2");
    let hot = compiler.compilation().chunk(1).unwrap();
    assert_eq!(hot.kind(), ChunkKind::HotUpdate);
    assert_eq!(hot.id(), "main");
    assert_eq!(hot.name(), Some(&"main".to_string()));
    assert_eq!(hot.runtime().to_vec(), vec!["main".to_string()]);
    assert_eq!(hot.groups(), &vec![0usize]);
    assert!(!hot.is_persistent());
    let graph = compiler.compilation().chunk_graph();
    assert!(graph.is_module_in_chunk(&js_id("/a.js"), 1));
    assert!(graph.is_module_in_chunk(&js_id("/b.js"), 1));
}

#[test]
fn update_chunk_hash_goes_by_the_modules_sent() {
    let run = |code: &str| -> u64 {
        let mut compiler = compiler_with(build(&[("/a.js", "A1"), ("/b.js", "B1")]), false);
        let next = build(&[("/a.js", "A1"), ("/b.js", code)]);
        compiler.rebuild(vec!["/b.js".to_string()], vec![], Ok(next)).unwrap();
        compiler.compilation().chunk(1).unwrap().content_hash()
    };
    assert_eq!(run("B2"), run("B3"));
    let untouched = Chunk::new(None, "x".to_string(), ChunkKind::HotUpdate).content_hash();
    assert_ne!(run("B2"), untouched);
}

#[test]
fn edit_of_an_unlisted_file_is_not_detected() {
    let mut compiler = compiler_with(build(&[("/a.js", "A1"), ("/b.js", "B1")]), false);
    let next = build(&[("/a.js", "A1"), ("/b.js", "B2")]);
    compiler.rebuild(vec!["/a.js".to_string()], vec![], Ok(next)).unwrap();
    assert_eq!(
        asset_text(&compiler, "main.hot-update.json").unwrap(),
        "{\"c\":[],\"r\":[],\"m\":[]}"
    );
}

#[test]
fn asset_modules_never_take_part() {
    let make = |code: &str| {
        let mut c = build(&[("/a.js", "A1")]);
        let id = add_asset(&mut c, "/logo.png", code);
        assert!(c.connect_chunk_and_module(0, id));
        c
    };
    let mut compiler = compiler_with(make("P1"), false);
    compiler.rebuild(vec!["/logo.png".to_string()], vec![], Ok(make("P2"))).unwrap();
    assert_eq!(
        asset_text(&compiler, "main.hot-update.json").unwrap(),
        "{\"c\":[],\"r\":[],\"m\":[]}"
    );
    // Nor is a removed asset module reported.
    compiler
        .rebuild(vec![], vec!["/logo.png".to_string()], Ok(build(&[("/a.js", "A1")])))
        .unwrap();
    assert_eq!(
        asset_text(&compiler, "main.hot-update.json").unwrap(),
        "{\"c\":[],\"r\":[],\"m\":[]}"
    );
}

#[test]
fn stylesheets_are_compared_by_the_code_they_generate_anew() {
    let make = |code: &str, cached: &str| {
        let mut c = build(&[("/a.js", "A1")]);
        let id = add_css(&mut c, "/s.css", code);
        // What is put by for a stylesheet is not looked at.
        let mut put_by = CodeGenerationResult::new();
        put_by.add(SourceType::Css, cached.to_string());
        c.set_code_generation_result(id.clone(), put_by);
        assert!(c.connect_chunk_and_module(0, id));
        c
    };
    let mut compiler = compiler_with(make("S1", "same"), false);
    compiler.rebuild(vec!["/s.css".to_string()], vec![], Ok(make("S2", "same"))).unwrap();
    assert_eq!(
        asset_text(&compiler, "main.hot-update.json").unwrap(),
        "{\"c\":[\"main\"],\"r\":[],\"m\":[]}"
    );
    compiler.rebuild(vec!["/s.css".to_string()], vec![], Ok(make("S2", "other"))).unwrap();
    assert_eq!(
        asset_text(&compiler, "main.hot-update.json").unwrap(),
        "{\"c\":[],\"r\":[],\"m\":[]}"
    );
}

#[test]
fn javascript_is_compared_by_the_code_put_by() {
    // A module of the JavaScript family without code put by compares as empty.
    let make = |with_code: bool| {
        let mut c = build(&[("/a.js", "A1")]);
        let module = Module::normal(ModuleType::Ts, resource("/t.ts"));
        let id = module.identifier().clone();
        assert!(c.add_module(module, None));
        if with_code {
            let mut generated = CodeGenerationResult::new();
            generated.add(SourceType::Css, "not javascript".to_string());
            c.set_code_generation_result(id.clone(), generated);
        }
        assert!(c.connect_chunk_and_module(0, id));
        c
    };
    let mut compiler = compiler_with(make(false), false);
    compiler.rebuild(vec!["/t.ts".to_string()], vec![], Ok(make(true))).unwrap();
    assert_eq!(
        asset_text(&compiler, "main.hot-update.json").unwrap(),
        "{\"c\":[],\"r\":[],\"m\":[]}"
    );
}

#[test]
fn chunk_that_is_gone_is_removed_from_every_runtime() {
    let old = build_entries(&[("main", "main"), ("admin", "admin")], &[("/a.js", "A1")]);
    let mut compiler = compiler_with(old, false);
    let next = build_entries(&[("main", "main")], &[("/a.js", "A2")]);
    compiler.rebuild(vec!["/a.js".to_string()], vec![], Ok(next)).unwrap();
    // `main` is still valid for the runtime `main` and no longer for `admin`;
    // the chunk `admin` is gone from both.
    assert_eq!(
        asset_text(&compiler, "main.hot-update.json").unwrap(),
        "{\"c\":[\"main\"],\"r\":[\"admin\"],\"m\":[]}"
    );
    assert_eq!(
        asset_text(&compiler, "admin.hot-update.json").unwrap(),
        "{\"c\":[],\"r\":[\"main\",\"admin\"],\"m\":[]}"
    );
    assert_eq!(asset_text(&compiler, "main.hot-update.js").unwrap(), "A2");
    assert!(asset_text(&compiler, "admin.hot-update.js").is_none());
}

#[test]
fn renamed_chunk_counts_as_removed() {
    let old = build_entries(&[("main", "main")], &[("/a.js", "A1")]);
    let mut compiler = compiler_with(old, false);
    let next = build_entries(&[("main", "main.1")], &[("/a.js", "A2")]);
    compiler.rebuild(vec!["/a.js".to_string()], vec![], Ok(next)).unwrap();
    assert_eq!(
        asset_text(&compiler, "main.hot-update.json").unwrap(),
        "{\"c\":[],\"r\":[\"main\"],\"m\":[]}"
    );
    assert!(asset_text(&compiler, "main.hot-update.js").is_none());
    assert!(asset_text(&compiler, "main.1.hot-update.js").is_none());
}

#[test]
fn chunk_without_an_old_runtime_is_passed_over() {
    let old = build_entries(&[("main", "main")], &[("/a.js", "A1")]);
    let mut compiler = compiler_with(old, false);
    // The new chunk `main` is valid for the runtime `other` alone.
    let next = build_entries(&[("other", "main")], &[("/a.js", "A2")]);
    compiler.rebuild(vec!["/a.js".to_string()], vec![], Ok(next)).unwrap();
    assert_eq!(
        asset_text(&compiler, "main.hot-update.json").unwrap(),
        "{\"c\":[],\"r\":[],\"m\":[]}"
    );
    assert!(asset_text(&compiler, "main.hot-update.js").is_none());
    assert_eq!(compiler.compilation().chunk_count(), 1);
}

#[test]
fn build_without_entrypoints_gets_no_manifest() {
    let mut compiler = compiler_with(Compilation::new(), false);
    let next = build(&[("/a.js", "A1")]);
    let stats = compiler.rebuild(vec!["/a.js".to_string()], vec![], Ok(next)).unwrap();
    assert!(stats.assets.is_empty());
    assert_eq!(compiler.compilation().chunk_count(), 1);
}

#[test]
fn failed_build_leaves_the_last_good_one() {
    let mut compiler = compiler_with(build(&[("/a.js", "A1")]), false);
    compiler.begin_rebuild();
    assert!(!compiler.cache().is_idle());
    let failure = compiler.rebuild(
        vec!["/a.js".to_string()],
        vec![],
        Err(Error::Io("disk full".to_string())),
    );
    assert!(matches!(failure, Err(Error::Io(ref m)) if m == "disk full"));
    assert!(compiler.cache().is_idle());
    assert_eq!(compiler.cache().pauses(), 1);
    assert!(compiler.compilation().module_graph().position(&js_id("/a.js")).is_some());
    assert!(compiler.stats().assets.is_empty());
}

#[test]
fn failed_rendering_leaves_the_last_good_build() {
    let mut compiler = compiler_with(build(&[("/a.js", "A1")]), true);
    let next = build(&[("/a.js", "A2"), ("/c.js", "C1")]);
    let failure = compiler.rebuild(vec!["/a.js".to_string()], vec![], Ok(next));
    assert!(matches!(failure, Err(Error::InternalError(ref m)) if m == "cannot render"));
    assert_eq!(failure.unwrap_err().message(), "cannot render");
    assert!(compiler.cache().is_idle());
    assert_eq!(compiler.compilation().module_graph().len(), 1);
    assert_eq!(compiler.compilation().chunk_count(), 1);
    assert!(asset_text(&compiler, "main.hot-update.json").is_none());
}

#[test]
fn chunk_ids_are_written_as_json_strings() {
    let old = build_entries(&[("main", "a\"b")], &[("/a.js", "A1")]);
    let mut compiler = compiler_with(old, false);
    let next = build_entries(&[("main", "a\"b")], &[("/a.js", "A2")]);
    compiler.rebuild(vec!["/a.js".to_string()], vec![], Ok(next)).unwrap();
    let manifest = asset_text(&compiler, "main.hot-update.json").unwrap();
    assert_eq!(manifest, "{\"c\":[\"a\\\"b\"],\"r\":[],\"m\":[]}");
    let parsed: serde_json::Value = serde_json::from_str(&manifest).unwrap();
    assert_eq!(parsed["c"][0].as_str(), Some("a\"b"));
    assert_eq!(asset_text(&compiler, "a\"b.hot-update.js").unwrap(), "A2");
}

#[test]
fn reported_diagnostics_go_into_the_next_build() {
    let mut compiler = compiler_with(build(&[("/a.js", "A1")]), false);
    compiler.plugin_driver_mut().report(Diagnostic {
        severity: Severity::Warn,
        title: "plugin".to_string(),
        message: "slow".to_string(),
    });
    let failed = compiler.rebuild(vec![], vec![], Err(Error::Io("gone".to_string())));
    assert!(failed.is_err());
    assert!(compiler.stats().diagnostics.is_empty());
    let stats = compiler.rebuild(vec![], vec![], Ok(build(&[("/a.js", "A1")]))).unwrap();
    let messages: Vec<&str> = stats.diagnostics.iter().map(|d| d.message.as_str()).collect();
    assert_eq!(messages, vec!["slow"]);
    assert!(compiler.plugin_driver_mut().take_diagnostic().is_empty());
    let stats = compiler.rebuild(vec![], vec![], Ok(build(&[("/a.js", "A1")]))).unwrap();
    assert!(stats.diagnostics.is_empty());
    assert_eq!(compiler.options().root, "/project");
    assert_eq!(compiler.plugin_driver().plugins().len(), 1);
    assert_eq!(compiler.plugin_driver().plugins()[0].name(), "js-renderer");
}

#[test]
fn report_lists_sizes_in_bytes() {
    let mut compiler = compiler_with(build(&[("/a.js", "A1")]), false);
    let next = build(&[("/a.js", "h\u{e9}")]);
    let stats = compiler.rebuild(vec!["/a.js".to_string()], vec![], Ok(next)).unwrap();
    let listed: Vec<(&str, usize)> =
        stats.assets.iter().map(|a| (a.name.as_str(), a.size)).collect();
    assert_eq!(listed, vec![("main.hot-update.js", 3), ("main.hot-update.json", 28)]);
}
