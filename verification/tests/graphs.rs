use rspack_core::chunk::{Chunk, ChunkGroup, ChunkKind};
use rspack_core::chunk_graph::ChunkGraph;
use rspack_core::compilation::{
    AssetInfo, Compilation, CompilationAsset, CompilationState,
};
use rspack_core::error::{Diagnostic, Error, Severity};
use rspack_core::module::{
    CodeGenerationResult, DependencyKind, Module, ModuleType, ResourceData, SourceType,
};
use rspack_core::module_graph::ModuleGraph;
use rspack_core::runtime::RuntimeSpec;
use rspack_core::text_map::TextMap;

fn js(path: &str) -> Module {
    Module::normal(
        ModuleType::Js,
        ResourceData {
            resource: path.to_string(),
            resource_path: path.to_string(),
            resource_query: None,
            resource_fragment: None,
        },
    )
}

fn runtime(tags: &[&str]) -> RuntimeSpec {
    let mut r = RuntimeSpec::new();
    for t in tags {
        r.insert(t.to_string());
    }
    r
}

#[test]
fn module_types_fall_into_families() {
    let js_like = [ModuleType::Js, ModuleType::Jsx, ModuleType::Ts, ModuleType::Tsx];
    let all = [
        ModuleType::Json,
        ModuleType::Css,
        ModuleType::Js,
        ModuleType::Jsx,
        ModuleType::Tsx,
        ModuleType::Ts,
        ModuleType::Asset,
        ModuleType::AssetInline,
        ModuleType::AssetResource,
        ModuleType::AssetSource,
    ];
    for t in all {
        assert_eq!(t.is_js_like(), js_like.contains(&t));
        assert_eq!(t.is_css_like(), t == ModuleType::Css);
    }
    let labels: Vec<&str> = all.iter().map(|t| t.as_str()).collect();
    assert_eq!(
        labels,
        vec![
            "json",
            "css",
            "js",
            "jsx",
            "tsx",
            "ts",
            "asset",
            "asset/inline",
            "asset/resource",
            "asset/source"
        ]
    );
}

#[test]
fn module_graph_keeps_one_module_per_identifier() {
    let mut graph = ModuleGraph::new();
    assert_eq!(graph.len(), 0);
    assert!(graph.add_module(js("/a.js"), None));
    assert!(graph.add_module(js("/b.js"), Some("js|/a.js".to_string())));
    let mut again = js("/a.js");
    again.set_generated(SourceType::JavaScript, "later".to_string());
    assert!(!graph.add_module(again, None));
    assert_eq!(graph.len(), 2);
    assert_eq!(graph.position("js|/b.js"), Some(1));
    assert_eq!(graph.position("js|/c.js"), None);
    let a = graph.module_by_identifier(&"js|/a.js".to_string()).unwrap();
    assert_eq!(a.module_type(), ModuleType::Js);
    assert_eq!(a.resource_resolved_data().unwrap().resource_path, "/a.js");
    assert!(a.code_generation().get(SourceType::JavaScript).is_none());
    assert!(graph.module_by_identifier(&"js|/c.js".to_string()).is_none());
    let b = graph.module_graph_module_by_identifier(&"js|/b.js".to_string()).unwrap();
    assert_eq!(b.issuer.as_deref(), Some("js|/a.js"));
    assert_eq!(b.module_type, ModuleType::Js);
    let ids: Vec<&str> =
        graph.module_graph_modules().iter().map(|m| m.module_identifier.as_str()).collect();
    assert_eq!(ids, vec!["js|/a.js", "js|/b.js"]);
    assert_eq!(graph.modules().len(), 2);
}

#[test]
fn edges_to_missing_modules_are_dropped() {
    let mut graph = ModuleGraph::new();
    graph.add_module(js("/a.js"), None);
    graph.add_module(js("/b.js"), None);
    let a = "js|/a.js".to_string();
    let b = "js|/b.js".to_string();
    let missing = "js|/none.js".to_string();
    assert!(graph.add_dependency(&a, &b, DependencyKind::EsmImport));
    assert!(graph.add_dependency(&a, &a, DependencyKind::CjsRequire));
    assert!(!graph.add_dependency(&a, &missing, DependencyKind::EsmImport));
    assert!(!graph.add_dependency(&missing, &a, DependencyKind::EsmImport));
    let record = graph.module_graph_module_by_identifier(&a).unwrap();
    let edges: Vec<(&str, DependencyKind)> =
        record.dependencies.iter().map(|d| (d.target.as_str(), d.kind)).collect();
    assert_eq!(
        edges,
        vec![("js|/b.js", DependencyKind::EsmImport), ("js|/a.js", DependencyKind::CjsRequire)]
    );
    assert!(graph.module_graph_module_by_identifier(&b).unwrap().dependencies.is_empty());
}

#[test]
fn generated_code_is_found_by_kind() {
    let mut result = CodeGenerationResult::new();
    assert!(result.get(SourceType::JavaScript).is_none());
    result.add(SourceType::Css, "c".to_string());
    result.add(SourceType::JavaScript, "first".to_string());
    result.add(SourceType::JavaScript, "second".to_string());
    assert_eq!(result.get(SourceType::JavaScript).unwrap(), "first");
    assert_eq!(result.get(SourceType::Css).unwrap(), "c");
    assert!(result.get(SourceType::Asset).is_none());
    let mut graph = ModuleGraph::new();
    graph.add_module(js("/a.js"), None);
    assert!(graph.set_generated(&"js|/a.js".to_string(), SourceType::JavaScript, "x".to_string()));
    assert!(!graph.set_generated(&"js|/b.js".to_string(), SourceType::JavaScript, "x".to_string()));
    let a = graph.module_by_identifier(&"js|/a.js".to_string()).unwrap();
    assert_eq!(a.code_generation().get(SourceType::JavaScript).unwrap(), "x");
}

#[test]
fn synthetic_module_takes_its_identifier() {
    let m = Module::synthetic("runtime/hot".to_string(), ModuleType::Js);
    assert_eq!(m.identifier(), "runtime/hot");
    assert!(m.resource_resolved_data().is_none());
}

#[test]
fn chunk_graph_connects_both_ways_and_once() {
    let mut graph = ChunkGraph::new();
    let a = "js|/a.js".to_string();
    let b = "js|/b.js".to_string();
    assert!(!graph.connect_chunk_and_module(0, a.clone()));
    assert!(graph.get_chunk_graph_chunk(0).is_none());
    graph.add_chunk(0);
    graph.add_chunk(7);
    graph.add_chunk(0);
    assert!(graph.connect_chunk_and_module(0, a.clone()));
    assert!(graph.connect_chunk_and_module(7, a.clone()));
    assert!(graph.connect_chunk_and_module(0, a.clone()));
    assert!(graph.connect_chunk_and_module(7, b.clone()));
    assert!(graph.is_module_in_chunk(&a, 0));
    assert!(!graph.is_module_in_chunk(&b, 0));
    assert!(graph.is_module_in_chunk(&b, 7));
    assert!(!graph.is_module_in_chunk(&a, 3));
    assert_eq!(graph.get_module_chunks(&a), vec![0, 7]);
    assert_eq!(graph.get_module_chunks(&b), vec![7]);
    assert!(graph.get_module_chunks(&"js|/c.js".to_string()).is_empty());
    let members = graph.get_chunk_graph_chunk(7).unwrap();
    assert!(members.contains_module(&a) && members.contains_module(&b));
    assert!(!members.contains_module(&"js|/c.js".to_string()));
    // Adding a chunk again keeps its members.
    graph.add_chunk(7);
    assert!(graph.is_module_in_chunk(&b, 7));
}

#[test]
fn runtime_sets_keep_order_and_have_no_repeats() {
    let mut a = runtime(&["x", "y", "x"]);
    assert_eq!(a.len(), 2);
    assert!(!a.insert("y".to_string()));
    assert!(a.insert("z".to_string()));
    assert_eq!(a.to_vec(), vec!["x", "y", "z"]);
    assert!(a.contains("y") && !a.contains("w"));
    assert_eq!(a.get(2), "z");
    let b = runtime(&["w", "z", "x"]);
    assert_eq!(a.intersect(&b).to_vec(), vec!["x", "z"]);
    assert_eq!(a.subtract(&b).to_vec(), vec!["y"]);
    assert_eq!(b.subtract(&a).to_vec(), vec!["w"]);
    a.extend(&b);
    assert_eq!(a.to_vec(), vec!["x", "y", "z", "w"]);
    let none = RuntimeSpec::new();
    assert!(none.is_empty() && RuntimeSpec::default().is_empty());
    assert!(a.intersect(&none).is_empty());
    assert_eq!(a.subtract(&none).to_vec(), a.to_vec());
    assert_eq!(a.clone().to_vec(), a.to_vec());
}

#[test]
fn chunk_joins_groups_and_takes_their_runtime() {
    let mut c = Compilation::new();
    let g0 = c.add_chunk_group(ChunkGroup::new(Some(runtime(&["main"]))));
    let g1 = c.add_chunk_group(ChunkGroup::new(Some(runtime(&["admin", "main"]))));
    let g2 = c.add_chunk_group(ChunkGroup::new(None));
    assert_eq!((g0, g1, g2), (0, 1, 2));
    let shared = c.add_chunk(Chunk::new(None, "shared".to_string(), ChunkKind::Normal)).unwrap();
    assert!(c.add_chunk_to_group(shared, g0));
    assert!(c.add_chunk_to_group(shared, g1));
    assert!(c.add_chunk_to_group(shared, g2));
    assert!(c.add_chunk_to_group(shared, g0));
    assert!(!c.add_chunk_to_group(shared, 9));
    assert!(!c.add_chunk_to_group(9, g0));
    let chunk = c.chunk(shared).unwrap();
    assert_eq!(chunk.runtime().to_vec(), vec!["main", "admin"]);
    assert_eq!(chunk.groups(), &vec![0usize, 1, 2]);
    assert_eq!(chunk.ukey(), shared);
    assert_eq!(c.chunk_group(g0).unwrap().chunks(), &vec![shared]);
    assert_eq!(c.chunk_group(g1).unwrap().ukey(), 1);
    assert!(c.chunk_group(g2).unwrap().runtime().is_none());
    assert!(c.chunk_group(3).is_none());
    c.add_entrypoint("main".to_string(), g0);
    c.add_entrypoint("admin".to_string(), g1);
    c.add_entrypoint("none".to_string(), g2);
    c.add_entrypoint("lost".to_string(), 42);
    assert_eq!(c.entry_runtime().to_vec(), vec!["main", "admin"]);
}

#[test]
fn lasting_chunks_have_distinct_ids() {
    let mut c = Compilation::new();
    assert_eq!(c.add_chunk(Chunk::new(None, "main".to_string(), ChunkKind::Entry)), Some(0));
    assert_eq!(c.add_chunk(Chunk::new(None, "main".to_string(), ChunkKind::Normal)), None);
    assert_eq!(c.add_chunk(Chunk::new(None, "main".to_string(), ChunkKind::HotUpdate)), Some(1));
    assert_eq!(c.add_chunk(Chunk::new(None, "main".to_string(), ChunkKind::HotUpdate)), Some(2));
    assert_eq!(c.add_chunk(Chunk::new(None, "other".to_string(), ChunkKind::Normal)), Some(3));
    assert_eq!(c.chunk_count(), 4);
    assert_eq!(c.find_chunk_by_id("main"), Some(0));
    assert_eq!(c.find_chunk_by_id("other"), Some(3));
    assert_eq!(c.find_chunk_by_id("none"), None);
    assert!(c.chunk(4).is_none());
    assert!(c.connect_chunk_and_module(3, "m".to_string()));
    assert!(!c.connect_chunk_and_module(4, "m".to_string()));
    assert!(c.chunk_graph().is_module_in_chunk(&"m".to_string(), 3));
}

#[test]
fn chunk_accessors() {
    let mut chunk = Chunk::new(Some("n".to_string()), "id".to_string(), ChunkKind::Entry);
    assert_eq!(chunk.id(), "id");
    assert_eq!(chunk.name(), Some(&"n".to_string()));
    assert_eq!(chunk.kind(), ChunkKind::Entry);
    assert!(chunk.is_persistent());
    chunk.set_runtime(runtime(&["a"]));
    chunk.extend_runtime(&runtime(&["b", "a"]));
    assert_eq!(chunk.runtime().to_vec(), vec!["a", "b"]);
    chunk.add_group(4);
    chunk.add_group(4);
    chunk.add_group(2);
    assert_eq!(chunk.groups(), &vec![4usize, 2]);
    let before = chunk.content_hash();
    chunk.update_hash(b"module");
    assert_ne!(chunk.content_hash(), before);
}

#[test]
fn compilation_runs_its_phases_in_order() {
    let mut c = Compilation::new();
    let order = [
        CompilationState::ThisCompilationHookRun,
        CompilationState::CompilationHookRun,
        CompilationState::Compiling,
        CompilationState::ChunkGraphBuilt,
        CompilationState::Rendered,
        CompilationState::Sealed,
    ];
    assert_eq!(c.state(), CompilationState::Created);
    for expected in order {
        assert!(matches!(c.advance(Ok(())), Ok(s) if s == expected));
        assert_eq!(c.state(), expected);
    }
    assert!(matches!(c.advance(Ok(())), Ok(CompilationState::Sealed)));
    assert_eq!(CompilationState::Sealed.next(), None);
    assert_eq!(CompilationState::Aborted.next(), None);
    assert_eq!(CompilationState::Created.next(), Some(CompilationState::ThisCompilationHookRun));
}

#[test]
fn failed_phase_aborts_the_rest() {
    let mut c = Compilation::new();
    c.advance(Ok(())).unwrap();
    let failed = c.advance(Err(Error::InternalError("hook".to_string())));
    assert!(matches!(failed, Err(Error::InternalError(ref m)) if m == "hook"));
    assert_eq!(c.state(), CompilationState::Aborted);
    assert!(matches!(c.advance(Ok(())), Ok(CompilationState::Aborted)));
    assert!(matches!(c.advance(Err(Error::Io("x".to_string()))), Err(Error::Io(_))));
    assert_eq!(c.state(), CompilationState::Aborted);
}

#[test]
fn assets_are_replaced_under_their_name() {
    let mut c = Compilation::new();
    let hot = AssetInfo::default().with_hot_module_replacement(true);
    assert_eq!(
        hot,
        AssetInfo { minimized: false, development: false, hot_module_replacement: true }
    );
    assert!(AssetInfo::default().with_minimized(true).minimized);
    assert!(AssetInfo::default().with_development(true).development);
    c.emit_asset("a.js".to_string(), CompilationAsset::new("one".to_string(), AssetInfo::default()));
    c.emit_asset("b.js".to_string(), CompilationAsset::new("two".to_string(), hot));
    c.emit_asset("a.js".to_string(), CompilationAsset::new("three!".to_string(), hot));
    assert_eq!(c.asset("a.js").unwrap().source, "three!");
    assert!(c.asset("a.js").unwrap().info.hot_module_replacement);
    assert!(c.asset("c.js").is_none());
    c.push_diagnostic(Diagnostic {
        severity: Severity::Warn,
        title: "t".to_string(),
        message: "m".to_string(),
    });
    let stats = c.get_stats();
    let listed: Vec<(&str, usize)> =
        stats.assets.iter().map(|a| (a.name.as_str(), a.size)).collect();
    assert_eq!(listed, vec![("a.js", 6), ("b.js", 3)]);
    assert_eq!(stats.diagnostics.len(), 1);
    assert_eq!(stats.diagnostics[0].severity, Severity::Warn);
}

#[test]
fn unresolved_edges_are_reported() {
    let mut c = Compilation::new();
    assert!(c.add_module(js("/a.js"), None));
    assert!(!c.add_module(js("/a.js"), None));
    let a = "js|/a.js".to_string();
    let missing = "js|/gone.js".to_string();
    assert!(c.add_dependency(&a, &a, DependencyKind::EsmImport));
    assert!(c.get_stats().diagnostics.is_empty());
    assert!(!c.add_dependency(&a, &missing, DependencyKind::EsmImport));
    let stats = c.get_stats();
    assert_eq!(stats.diagnostics.len(), 1);
    assert_eq!(stats.diagnostics[0].severity, Severity::Error);
    assert!(stats.diagnostics[0].message.contains("js|/gone.js"));
    assert!(c.set_module_generated(&a, SourceType::JavaScript, "code".to_string()));
    assert!(!c.set_module_generated(&missing, SourceType::JavaScript, "code".to_string()));
    let mut put_by = CodeGenerationResult::new();
    put_by.add(SourceType::JavaScript, "cached".to_string());
    c.set_code_generation_result(a.clone(), put_by);
    assert_eq!(
        c.code_generation_result(&a).unwrap().get(SourceType::JavaScript).unwrap(),
        "cached"
    );
    assert!(c.code_generation_result(&missing).is_none());
    assert_eq!(c.module_graph().len(), 1);
}

#[test]
fn text_map_keeps_first_arrival_order() {
    let mut map: TextMap<usize> = TextMap::new();
    map.insert("b".to_string(), 1);
    map.insert("a".to_string(), 2);
    map.insert("b".to_string(), 3);
    assert_eq!(map.len(), 2);
    assert_eq!(map.position("a"), Some(1));
    assert_eq!(map.position("c"), None);
    assert_eq!(map.get("b"), Some(&3));
    assert_eq!(map.get("c"), None);
    assert_eq!((map.key_at(0).as_str(), *map.value_at(0)), ("b", 3));
    assert_eq!((map.key_at(1).as_str(), *map.value_at(1)), ("a", 2));
}

fn seal(c: &mut Compilation) -> Result<CompilationState, Error> {
    let mut last = Ok(c.state());
    for _ in 0..6 {
        last = c.advance(Ok(()));
        if last.is_err() {
            break;
        }
    }
    last
}

#[test]
fn module_without_a_chunk_cannot_be_sealed() {
    let mut c = Compilation::new();
    c.add_module(js("/a.js"), None);
    c.add_module(js("/b.js"), None);
    let chunk = c.add_chunk(Chunk::new(None, "main".to_string(), ChunkKind::Entry)).unwrap();
    c.connect_chunk_and_module(chunk, "js|/a.js".to_string());
    assert!(!c.every_module_has_chunk());
    let r = seal(&mut c);
    assert!(matches!(r, Err(Error::InternalError(ref m)) if m == "a module belongs to no chunk"));
    assert_eq!(c.state(), CompilationState::Aborted);
}

#[test]
fn sealed_compilation_takes_no_module_and_no_membership() {
    let mut c = Compilation::new();
    c.add_module(js("/a.js"), None);
    let group = c.add_chunk_group(ChunkGroup::new(Some(runtime(&["main"]))));
    let chunk = c.add_chunk(Chunk::new(None, "main".to_string(), ChunkKind::Entry)).unwrap();
    c.connect_chunk_and_module(chunk, "js|/a.js".to_string());
    assert!(c.every_module_has_chunk());
    assert!(matches!(seal(&mut c), Ok(CompilationState::Sealed)));
    assert!(!c.add_module(js("/b.js"), None));
    assert_eq!(c.module_graph().len(), 1);
    assert!(!c.add_chunk_to_group(chunk, group));
    assert!(c.chunk(chunk).unwrap().runtime().is_empty());
    // Update chunks and assets still come in.
    let hot = c.add_chunk(Chunk::new(None, "main".to_string(), ChunkKind::HotUpdate));
    assert_eq!(hot, Some(1));
    assert!(c.connect_chunk_and_module(1, "js|/a.js".to_string()));
}

#[test]
fn lasting_chunk_gets_its_runtime_from_its_groups_alone() {
    let mut c = Compilation::new();
    let group = c.add_chunk_group(ChunkGroup::new(Some(runtime(&["main"]))));
    let mut with_runtime = Chunk::new(None, "a".to_string(), ChunkKind::Normal);
    with_runtime.set_runtime(runtime(&["forged"]));
    assert_eq!(c.add_chunk(with_runtime), None);
    let mut with_group = Chunk::new(None, "b".to_string(), ChunkKind::Normal);
    with_group.add_group(group);
    assert_eq!(c.add_chunk(with_group), None);
    let mut hot = Chunk::new(None, "c".to_string(), ChunkKind::HotUpdate);
    hot.set_runtime(runtime(&["main"]));
    hot.add_group(group);
    assert_eq!(c.add_chunk(hot), Some(0));
    let mut lost = Chunk::new(None, "d".to_string(), ChunkKind::HotUpdate);
    lost.add_group(5);
    assert_eq!(c.add_chunk(lost), None);
    assert_eq!(c.chunk_count(), 1);
}

#[test]
fn failed_module_stays_and_generates_nothing() {
    let mut c = Compilation::new();
    let mut module = js("/a.js");
    assert!(module.set_generated(SourceType::JavaScript, "code".to_string()));
    assert!(!module.is_failed());
    c.add_module(module, None);
    let a = "js|/a.js".to_string();
    let syntax = Diagnostic {
        severity: Severity::Error,
        title: "Syntax Error".to_string(),
        message: "unexpected token".to_string(),
    };
    assert!(c.fail_module(&a, syntax.clone()));
    assert!(!c.fail_module(&"js|/b.js".to_string(), syntax));
    let failed = c.module_graph().module_by_identifier(&a).unwrap();
    assert!(failed.is_failed());
    assert!(failed.code_generation().get(SourceType::JavaScript).is_none());
    assert!(!c.set_module_generated(&a, SourceType::JavaScript, "late".to_string()));
    assert_eq!(c.get_stats().diagnostics.len(), 2);
    let mut alone = js("/c.js");
    alone.fail();
    assert!(!alone.set_generated(SourceType::Css, "x".to_string()));
    assert!(alone.code_generation().get(SourceType::Css).is_none());
}

#[test]
fn unresolved_entry_ends_the_build() {
    let mut c = Compilation::new();
    assert!(c.report_unresolved("js|/a.js", "./missing", DependencyKind::EsmImport).is_ok());
    let fatal = c.report_unresolved("", "./entry.js", DependencyKind::Entry);
    assert!(matches!(fatal, Err(Error::InternalError(ref m)) if m == "./entry.js"));
    let stats = c.get_stats();
    let recorded: Vec<(&str, &str)> =
        stats.diagnostics.iter().map(|d| (d.title.as_str(), d.message.as_str())).collect();
    assert_eq!(recorded, vec![("js|/a.js", "./missing"), ("", "./entry.js")]);
}
