use rspack_core::compilation::Compilation;
use rspack_core::hmr::{
    collect_changed_modules, diff_modules, frame_manifest, get_hot_update_main_filename,
    snapshot_chunks, HotUpdateContent,
};
use rspack_core::chunk::{Chunk, ChunkKind};
use rspack_core::module::{
    module_identifier, CodeGenerationResult, Module, ModuleType, ResourceData, SourceType,
};

fn resource(path: &str, query: Option<&str>) -> ResourceData {
    ResourceData {
        resource: path.to_string(),
        resource_path: path.to_string(),
        resource_query: query.map(|q| q.to_string()),
        resource_fragment: None,
    }
}

fn compilation_with(modules: &[(&str, &str)]) -> Compilation {
    let mut compilation = Compilation::new();
    for (path, code) in modules {
        let module = Module::normal(ModuleType::Js, resource(path, None));
        let id = module.identifier().clone();
        compilation.add_module(module, None);
        let mut generated = CodeGenerationResult::new();
        generated.add(SourceType::JavaScript, code.to_string());
        compilation.set_code_generation_result(id, generated);
    }
    compilation
}

#[test]
fn manifest_file_name() {
    assert_eq!(get_hot_update_main_filename("main"), "main.hot-update.json");
    assert_eq!(get_hot_update_main_filename(""), ".hot-update.json");
    assert_eq!(HotUpdateContent::new("admin").filename(), "admin.hot-update.json");
}

#[test]
fn fresh_content_is_empty() {
    let content = HotUpdateContent::new("main");
    assert!(content.updated_chunk_ids().is_empty());
    assert!(content.removed_chunk_ids().is_empty());
    assert_eq!(content.manifest(&vec![]), "{\"c\":[],\"r\":[],\"m\":[]}");
}

#[test]
fn content_records_each_chunk_once() {
    let mut content = HotUpdateContent::new("main");
    content.add_updated_chunk("a".to_string());
    content.add_updated_chunk("b".to_string());
    content.add_updated_chunk("a".to_string());
    content.add_removed_chunk("c".to_string());
    content.add_removed_chunk("c".to_string());
    assert_eq!(content.updated_chunk_ids(), &vec!["a".to_string(), "b".to_string()]);
    assert_eq!(content.removed_chunk_ids(), &vec!["c".to_string()]);
    assert_eq!(
        content.manifest(&vec!["js|/x.js".to_string()]),
        "{\"c\":[\"a\",\"b\"],\"r\":[\"c\"],\"m\":[\"js|/x.js\"]}"
    );
}

#[test]
fn manifest_is_json_with_escapes() {
    let mut content = HotUpdateContent::new("main");
    content.add_updated_chunk("tab\there".to_string());
    content.add_removed_chunk("back\\slash".to_string());
    let manifest = content.manifest(&vec!["uni\u{e9}".to_string()]);
    assert_eq!(manifest, "{\"c\":[\"tab\\there\"],\"r\":[\"back\\\\slash\"],\"m\":[\"uni\u{e9}\"]}");
    let parsed: serde_json::Value = serde_json::from_str(&manifest).unwrap();
    assert_eq!(parsed["c"][0].as_str(), Some("tab\there"));
    assert_eq!(parsed["r"][0].as_str(), Some("back\\slash"));
    assert_eq!(parsed["m"][0].as_str(), Some("uni\u{e9}"));
}

#[test]
fn frame_puts_the_members_in_order() {
    assert_eq!(frame_manifest("1", "2", "3"), "{\"c\":1,\"r\":2,\"m\":3}");
    assert_eq!(frame_manifest("", "", ""), "{\"c\":,\"r\":,\"m\":}");
}

#[test]
fn only_touched_modules_are_collected() {
    let compilation = compilation_with(&[("/a.js", "A"), ("/b.js", "B"), ("/c.js", "C")]);
    let collected = collect_changed_modules(
        &compilation,
        &vec!["/c.js".to_string()],
        &vec!["/a.js".to_string(), "/zzz.js".to_string()],
    );
    assert_eq!(collected.len(), 2);
    assert_eq!(collected.key_at(0), "js|/a.js");
    assert_eq!(collected.value_at(0), "A");
    assert_eq!(collected.key_at(1), "js|/c.js");
    assert_eq!(collected.value_at(1), "C");
    assert!(collected.get("js|/b.js").is_none());
}

#[test]
fn synthetic_modules_are_never_touched() {
    let mut compilation = Compilation::new();
    compilation.add_module(Module::synthetic("/a.js".to_string(), ModuleType::Js), None);
    let collected = collect_changed_modules(&compilation, &vec!["/a.js".to_string()], &vec![]);
    assert_eq!(collected.len(), 0);
}

#[test]
fn diff_tells_updated_from_removed_and_ignores_new() {
    let old = compilation_with(&[("/a.js", "A1"), ("/b.js", "B1"), ("/c.js", "C1")]);
    let now = compilation_with(&[("/a.js", "A1"), ("/c.js", "C2"), ("/d.js", "D1")]);
    let files: Vec<String> =
        ["/a.js", "/b.js", "/c.js", "/d.js"].iter().map(|s| s.to_string()).collect();
    let old_modules = collect_changed_modules(&old, &files, &vec![]);
    let now_modules = collect_changed_modules(&now, &files, &vec![]);
    let (updated, removed) = diff_modules(&old_modules, &now_modules);
    assert_eq!(updated, vec!["js|/c.js".to_string()]);
    assert_eq!(removed, vec!["js|/b.js".to_string()]);
}

#[test]
fn identifier_is_stable_across_builds() {
    let first = Module::normal(ModuleType::Js, resource("/src/a.js", Some("?raw")));
    let second = Module::normal(ModuleType::Js, resource("/src/a.js", Some("?raw")));
    assert_eq!(first.identifier(), second.identifier());
    assert_eq!(first.identifier(), "js|/src/a.js?raw");
    assert_eq!(module_identifier(ModuleType::Css, &resource("/s.css", None)), "css|/s.css");
    assert_eq!(
        module_identifier(ModuleType::AssetSource, &resource("/t.txt", None)),
        "asset/source|/t.txt"
    );
    // Another type or another query is another module.
    assert_ne!(
        module_identifier(ModuleType::Js, &resource("/a", None)),
        module_identifier(ModuleType::Jsx, &resource("/a", None))
    );
    assert_ne!(
        module_identifier(ModuleType::Js, &resource("/a", Some("?x"))),
        module_identifier(ModuleType::Js, &resource("/a", Some("?y")))
    );
}

#[test]
fn snapshot_takes_lasting_chunks_only() {
    let mut compilation = compilation_with(&[("/a.js", "A")]);
    let main = compilation
        .add_chunk(Chunk::new(None, "main".to_string(), ChunkKind::Entry))
        .unwrap();
    compilation.connect_chunk_and_module(main, "js|/a.js".to_string());
    compilation.add_chunk(Chunk::new(None, "main".to_string(), ChunkKind::HotUpdate)).unwrap();
    compilation.add_chunk(Chunk::new(None, "lazy".to_string(), ChunkKind::Normal)).unwrap();
    let snapshot = snapshot_chunks(&compilation);
    let ids: Vec<&str> = snapshot.iter().map(|c| c.id.as_str()).collect();
    assert_eq!(ids, vec!["main", "lazy"]);
    assert!(snapshot[0].modules.contains("js|/a.js"));
    assert!(!snapshot[0].modules.contains("js|/b.js"));
    assert!(!snapshot[1].modules.contains("js|/a.js"));
    // The snapshot is a copy: what joins the chunk later is not in it.
    compilation.connect_chunk_and_module(main, "js|/b.js".to_string());
    assert!(!snapshot[0].modules.contains("js|/b.js"));
}
