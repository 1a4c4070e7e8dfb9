//! Hot update: the difference between two builds, packaged as update chunks
//! and one manifest per runtime.

use vstd::prelude::*;
use vstd::string::StringExecFns;
use crate::chunk::{Chunk, ChunkKind, ChunkUkey, ChunkView};
use crate::chunk_graph::ChunkGraphView;
use crate::compilation::{
    asset_summary, AssetInfo, AssetView, Compilation, CompilationAsset, CompilationView, Stats,
};
use crate::compiler::Compiler;
use crate::error::{Diagnostic, Error, ErrorView};
use crate::hook::collect_all;
use crate::module::{generated_text, ModuleIdentifier, ModuleView, SourceType};
use crate::module_set::{module_set_contents, ModuleSet};
use crate::plugin::{Plugin, RenderManifestArgs, RenderManifestEntry, RenderManifestEntryView};
use crate::plugin_driver::{render_manifest_answers, PluginDriver};
use crate::runtime::{runtime_difference, runtime_intersection, RuntimeSpec};
use crate::text::{
    contains_text, insert_text, lemma_filter_contains, lemma_filter_empty, lemma_filter_push,
    set_insert, text_views,
};
use crate::text_map::{has_key, keys_of, lookup, put, unique_keys, TextMap};

verus! {

/// What every manifest's file name ends in, after the runtime's name.
pub open spec fn hot_update_main_suffix() -> Seq<char> {
    ".hot-update.json"@
}

/// What every update chunk's file name ends in, after the chunk's id.
pub open spec fn hot_update_chunk_suffix() -> Seq<char> {
    ".hot-update.js"@
}

/// Name of the manifest emitted for `chunk_name`: the name followed by `.hot-update.json`.
pub fn get_hot_update_main_filename(chunk_name: &str) -> (filename: String)
    ensures
        filename@ == chunk_name@ + hot_update_main_suffix(),
{
    let name = String::from_str(chunk_name);
    name.concat(".hot-update.json")
}

/// The JSON text of an array of strings, as `serde_json` writes it in its
/// compact form.
pub uninterp spec fn json_string_array(items: Seq<Seq<char>>) -> Seq<char>;

/// Writes `items` as a JSON array of strings: `serde_json::Value::from` on
/// the list, then `to_string` on the value. Believed, not proved: the text
/// depends on the strings alone.
#[verifier::external_body]
fn json_array_of(items: &Vec<String>) -> (json: String)
    ensures
        json@ == json_string_array(text_views(items@)),
{
    serde_json::Value::from(items.clone()).to_string()
}

/// A manifest around three JSON values: an object with the members `c`, `r`
/// and `m`, in that order, without white space.
pub open spec fn manifest_frame(c: Seq<char>, r: Seq<char>, m: Seq<char>) -> Seq<char> {
    "{\"c\":"@ + c + ",\"r\":"@ + r + ",\"m\":"@ + m + "}"@
}

/// Puts a manifest together from the JSON texts of its three members.
pub fn frame_manifest(c: &str, r: &str, m: &str) -> (manifest: String)
    ensures
        manifest@ == manifest_frame(c@, r@, m@),
{
    let mut manifest = String::from_str("{\"c\":");
    manifest.append(c);
    manifest.append(",\"r\":");
    manifest.append(r);
    manifest.append(",\"m\":");
    manifest.append(m);
    manifest.append("}");
    manifest
}

/// What one runtime is told about a rebuild, as a mathematical value.
pub struct HotUpdateContentView {
    /// The ids of the chunks that were updated for the runtime.
    pub updated_chunk_ids: Seq<Seq<char>>,
    /// The ids of the chunks that the runtime no longer loads.
    pub removed_chunk_ids: Seq<Seq<char>>,
    /// The name of the manifest file.
    pub filename: Seq<char>,
}

impl HotUpdateContentView {
    /// The content for the runtime `runtime` before anything is recorded.
    pub open spec fn fresh(runtime: Seq<char>) -> Self {
        HotUpdateContentView {
            updated_chunk_ids: Seq::empty(),
            removed_chunk_ids: Seq::empty(),
            filename: runtime + hot_update_main_suffix(),
        }
    }

    /// The text of the manifest: the updated chunk ids under `c`, the
    /// removed chunk ids under `r`, and under `m` the identifiers of the
    /// modules that are gone for good, which are the same for every runtime.
    pub open spec fn manifest(self, removed_modules: Seq<Seq<char>>) -> Seq<char> {
        manifest_frame(
            json_string_array(self.updated_chunk_ids),
            json_string_array(self.removed_chunk_ids),
            json_string_array(removed_modules),
        )
    }
}

/// What one runtime is told about a rebuild: which chunks were updated, and
/// which are gone from it.
#[derive(Debug)]
pub struct HotUpdateContent {
    pub(crate) updated_chunk_ids: Vec<String>,
    pub(crate) removed_chunk_ids: Vec<String>,
    pub(crate) filename: String,
}

impl View for HotUpdateContent {
    type V = HotUpdateContentView;

    open(crate) spec fn view(&self) -> HotUpdateContentView {
        HotUpdateContentView {
            updated_chunk_ids: text_views(self.updated_chunk_ids@),
            removed_chunk_ids: text_views(self.removed_chunk_ids@),
            filename: self.filename@,
        }
    }
}

impl HotUpdateContent {
    /// The content for the runtime `chunk_name`, with nothing recorded yet.
    pub fn new(chunk_name: &str) -> (content: Self)
        ensures
            content@ == HotUpdateContentView::fresh(chunk_name@),
    {
        let content = HotUpdateContent {
            updated_chunk_ids: Vec::new(),
            removed_chunk_ids: Vec::new(),
            filename: get_hot_update_main_filename(chunk_name),
        };
        proof {
            assert(content@.updated_chunk_ids =~= Seq::<Seq<char>>::empty());
            assert(content@.removed_chunk_ids =~= Seq::<Seq<char>>::empty());
        }
        content
    }

    /// The name of the manifest file.
    pub fn filename(&self) -> (name: &String)
        ensures
            name@ == self@.filename,
    {
        &self.filename
    }

    /// The ids of the chunks that were updated for the runtime.
    pub fn updated_chunk_ids(&self) -> (ids: &Vec<String>)
        ensures
            text_views(ids@) == self@.updated_chunk_ids,
    {
        &self.updated_chunk_ids
    }

    /// The ids of the chunks that the runtime no longer loads.
    pub fn removed_chunk_ids(&self) -> (ids: &Vec<String>)
        ensures
            text_views(ids@) == self@.removed_chunk_ids,
    {
        &self.removed_chunk_ids
    }

    /// Records that the chunk `chunk_id` was updated for the runtime.
    pub fn add_updated_chunk(&mut self, chunk_id: String)
        ensures
            final(self)@ == (HotUpdateContentView {
                updated_chunk_ids: set_insert(old(self)@.updated_chunk_ids, chunk_id@),
                ..old(self)@
            }),
    {
        insert_text(&mut self.updated_chunk_ids, chunk_id);
    }

    /// Records that the runtime no longer loads the chunk `chunk_id`.
    pub fn add_removed_chunk(&mut self, chunk_id: String)
        ensures
            final(self)@ == (HotUpdateContentView {
                removed_chunk_ids: set_insert(old(self)@.removed_chunk_ids, chunk_id@),
                ..old(self)@
            }),
    {
        insert_text(&mut self.removed_chunk_ids, chunk_id);
    }

    /// The text of the runtime's manifest, given the modules that are gone
    /// for good.
    pub fn manifest(&self, removed_modules: &Vec<ModuleIdentifier>) -> (json: String)
        ensures
            json@ == self@.manifest(text_views(removed_modules@)),
    {
        let c = json_array_of(&self.updated_chunk_ids);
        let r = json_array_of(&self.removed_chunk_ids);
        let m = json_array_of(removed_modules);
        frame_manifest(c.as_str(), r.as_str(), m.as_str())
    }
}

/// Whether a change to the files `changed` and `removed` touches the module:
/// whether the module was made from one of them.
pub open spec fn touched(
    module: ModuleView,
    changed: Seq<Seq<char>>,
    removed: Seq<Seq<char>>,
) -> bool {
    match module.resource_path() {
        Some(path) => changed.contains(path) || removed.contains(path),
        None => false,
    }
}

/// The text by which a module is compared across builds. For a module of
/// the JavaScript family it is the JavaScript that the compilation has put
/// by for it; for one of the stylesheet family it is the stylesheet that the
/// module generates anew; in both cases empty where there is no such code.
/// A module of any other type is not compared.
pub open spec fn comparison_text(compilation: CompilationView, module: ModuleView) -> Option<
    Seq<char>,
> {
    if module.module_type.js_like() {
        match lookup(compilation.code_generation_results, module.identifier) {
            Some(codes) => match generated_text(codes, SourceType::JavaScript) {
                Some(text) => Some(text),
                None => Some(Seq::empty()),
            },
            None => Some(Seq::empty()),
        }
    } else if module.module_type.css_like() {
        match generated_text(module.generated, SourceType::Css) {
            Some(text) => Some(text),
            None => Some(Seq::empty()),
        }
    } else {
        None
    }
}

/// Whether the module takes part in the comparison of two builds after a
/// change to the files `changed` and `removed`.
pub open spec fn compared(
    compilation: CompilationView,
    module: ModuleView,
    changed: Seq<Seq<char>>,
    removed: Seq<Seq<char>>,
) -> bool {
    touched(module, changed, removed) && comparison_text(compilation, module) is Some
}

/// The modules of a compilation that take part in the comparison, each with
/// its comparison text, in the order of the module graph.
pub open spec fn changed_modules(
    compilation: CompilationView,
    changed: Seq<Seq<char>>,
    removed: Seq<Seq<char>>,
) -> Seq<(Seq<char>, Seq<char>)> {
    compilation.module_graph.modules.filter(
        |m: ModuleView| compared(compilation, m, changed, removed),
    ).map_values(|m: ModuleView| (m.identifier, comparison_text(compilation, m).unwrap()))
}

/// The keys of the changed modules are the identifiers of the compared
/// modules: each is a module of the graph, and none occurs twice.
pub proof fn lemma_changed_modules_keys(
    compilation: CompilationView,
    changed: Seq<Seq<char>>,
    removed: Seq<Seq<char>>,
)
    requires
        compilation.module_graph.wf(),
    ensures
        unique_keys(changed_modules(compilation, changed, removed)),
        forall|id: Seq<char>|
            has_key(changed_modules(compilation, changed, removed), id) ==> (
            #[trigger] compilation.module_graph.has(id)),
        forall|id: Seq<char>|
            #![trigger has_key(changed_modules(compilation, changed, removed), id)]
            has_key(changed_modules(compilation, changed, removed), id) <==> (
            compilation.module_graph.has(id) && compared(
                compilation,
                compilation.module_graph.module(id).unwrap(),
                changed,
                removed,
            )),
{
    let graph = compilation.module_graph;
    let keep = |m: ModuleView| compared(compilation, m, changed, removed);
    let kept = graph.modules.filter(keep);
    let result = changed_modules(compilation, changed, removed);
    let keys = keys_of(result);
    // The kept modules are a sub-list of the graph's, so their identifiers
    // are distinct.
    assert forall|i: int, j: int| 0 <= i < j < kept.len() implies kept[i].identifier
        != kept[j].identifier by {
        lemma_kept_distinct(graph.modules, keep, i, j);
    }
    assert forall|i: int, j: int| 0 <= i < keys.len() && 0 <= j < keys.len() && i
        != j implies keys[i] != keys[j] by {
        if i < j {
            assert(kept[i].identifier != kept[j].identifier);
        } else {
            assert(kept[j].identifier != kept[i].identifier);
        }
    }
    assert forall|id: Seq<char>| #![trigger has_key(result, id)] has_key(result, id) <==> (
    graph.has(id) && compared(compilation, graph.module(id).unwrap(), changed, removed)) by {
        if has_key(result, id) {
            let k = choose|k: int| 0 <= k < keys.len() && keys[k] == id;
            let m = kept[k];
            assert(kept.contains(m));
            lemma_filter_contains(graph.modules, keep, m);
            let g = choose|g: int| 0 <= g < graph.modules.len() && graph.modules[g] == m;
            assert(graph.ids()[g] == id);
            crate::text::lemma_index_of_unique(graph.ids(), g);
        }
        if graph.has(id) && compared(compilation, graph.module(id).unwrap(), changed, removed) {
            crate::text::lemma_index_of_within(graph.ids(), id);
            let g = graph.index_of(id);
            let m = graph.modules[g];
            assert(graph.modules.contains(m));
            lemma_filter_contains(graph.modules, keep, m);
            let k = choose|k: int| 0 <= k < kept.len() && kept[k] == m;
            assert(keys[k] == id);
        }
    }
}

/// Two modules that both survive a filter of a graph's modules have
/// different identifiers.
proof fn lemma_kept_distinct(
    modules: Seq<ModuleView>,
    keep: spec_fn(ModuleView) -> bool,
    i: int,
    j: int,
)
    requires
        modules.map_values(|m: ModuleView| m.identifier).no_duplicates(),
        0 <= i < j < modules.filter(keep).len(),
    ensures
        modules.filter(keep)[i].identifier != modules.filter(keep)[j].identifier,
    decreases modules.len(),
{
    reveal(Seq::filter);
    let ids = modules.map_values(|m: ModuleView| m.identifier);
    if modules.len() > 0 {
        let rest = modules.drop_last();
        let kept_rest = rest.filter(keep);
        assert(rest.map_values(|m: ModuleView| m.identifier) =~= ids.drop_last());
        if keep(modules.last()) && j == kept_rest.len() {
            let a = kept_rest[i];
            assert(kept_rest.contains(a));
            lemma_filter_contains(rest, keep, a);
            let g = choose|g: int| 0 <= g < rest.len() && rest[g] == a;
            assert(ids[g] == a.identifier);
            assert(ids[modules.len() - 1] == modules.last().identifier);
        } else {
            lemma_kept_distinct(rest, keep, i, j);
        }
    }
}

/// Gathers the modules that take part in the comparison, each under its
/// identifier with its comparison text.
pub fn collect_changed_modules(
    compilation: &Compilation,
    changed_files: &Vec<String>,
    removed_files: &Vec<String>,
) -> (collected: TextMap<String>)
    requires
        compilation.wf(),
    ensures
        collected.wf(),
        collected@ == changed_modules(
            compilation@,
            text_views(changed_files@),
            text_views(removed_files@),
        ),
{
    let ghost changed = text_views(changed_files@);
    let ghost removed = text_views(removed_files@);
    let ghost keep = |m: ModuleView| compared(compilation@, m, changed, removed);
    let ghost pair = |m: ModuleView| (m.identifier, comparison_text(compilation@, m).unwrap());
    let ghost all = compilation@.module_graph.modules;
    let modules = compilation.module_graph().modules();
    let mut keys: Vec<String> = Vec::new();
    let mut values: Vec<String> = Vec::new();
    let mut i: usize = 0;
    proof {
        lemma_filter_empty(keep);
        assert(all.take(0) =~= Seq::<ModuleView>::empty());
    }
    while i < modules.len()
        invariant
            i <= modules.len(),
            compilation.wf(),
            modules@.map_values(|m: crate::module::Module| m@) == all,
            all == compilation@.module_graph.modules,
            changed == text_views(changed_files@),
            removed == text_views(removed_files@),
            keep == (|m: ModuleView| compared(compilation@, m, changed, removed)),
            pair == (|m: ModuleView| (m.identifier, comparison_text(compilation@, m).unwrap())),
            keys@.len() == values@.len(),
            Seq::new(keys@.len(), |k: int| (keys@[k]@, values@[k]@)) == all.take(i as int).filter(
                keep,
            ).map_values(pair),
        decreases modules.len() - i,
    {
        let module = &modules[i];
        let ghost m = module@;
        let ghost before = Seq::new(keys@.len(), |k: int| (keys@[k]@, values@[k]@));
        proof {
            assert(all[i as int] == m);
            assert(all.take(i + 1) =~= all.take(i as int).push(m));
            lemma_filter_push(all.take(i as int), m, keep);
        }
        let is_touched = match module.resource_resolved_data() {
            Some(data) => {
                let in_changed = contains_text(changed_files, data.resource_path.as_str());
                let in_removed = contains_text(removed_files, data.resource_path.as_str());
                assert(m.resource_path() == Some(data.resource_path@));
                in_changed || in_removed
            },
            None => false,
        };
        assert(is_touched == touched(m, changed, removed));
        if is_touched {
            let module_type = module.module_type();
            if module_type.is_js_like() {
                let code = match compilation.code_generation_result(module.identifier()) {
                    Some(result) => match result.get(SourceType::JavaScript) {
                        Some(text) => text.clone(),
                        None => String::new(),
                    },
                    None => String::new(),
                };
                assert(code@ == comparison_text(compilation@, m).unwrap());
                keys.push(module.identifier().clone());
                values.push(code);
                proof {
                    assert(Seq::new(keys@.len(), |k: int| (keys@[k]@, values@[k]@))
                        =~= before.push(pair(m)));
                    assert(all.take(i as int).filter(keep).push(m).map_values(pair)
                        =~= all.take(i as int).filter(keep).map_values(pair).push(pair(m)));
                }
            } else if module_type.is_css_like() {
                let generated = module.code_generation();
                let code = match generated.get(SourceType::Css) {
                    Some(text) => text.clone(),
                    None => String::new(),
                };
                assert(code@ == comparison_text(compilation@, m).unwrap());
                keys.push(module.identifier().clone());
                values.push(code);
                proof {
                    assert(Seq::new(keys@.len(), |k: int| (keys@[k]@, values@[k]@))
                        =~= before.push(pair(m)));
                    assert(all.take(i as int).filter(keep).push(m).map_values(pair)
                        =~= all.take(i as int).filter(keep).map_values(pair).push(pair(m)));
                }
            }
        }
        i = i + 1;
    }
    let collected = TextMap { keys, values };
    proof {
        assert(all.take(all.len() as int) =~= all);
        assert(collected@ =~= changed_modules(compilation@, changed, removed));
        lemma_changed_modules_keys(compilation@, changed, removed);
    }
    collected
}

/// Whether the changed module `entry` of the old build was updated: whether
/// the new build has the module with another comparison text.
pub open spec fn is_updated(
    now: Seq<(Seq<char>, Seq<char>)>,
    entry: (Seq<char>, Seq<char>),
) -> bool {
    match lookup(now, entry.0) {
        Some(text) => text != entry.1,
        None => false,
    }
}

/// The identifiers of the modules that both builds have, with different
/// comparison texts, in the old build's order.
pub open spec fn updated_modules(
    old_modules: Seq<(Seq<char>, Seq<char>)>,
    now_modules: Seq<(Seq<char>, Seq<char>)>,
) -> Seq<Seq<char>> {
    old_modules.filter(|e: (Seq<char>, Seq<char>)| is_updated(now_modules, e)).map_values(
        |e: (Seq<char>, Seq<char>)| e.0,
    )
}

/// The identifiers of the modules that the old build has and the new build
/// lacks, in the old build's order. Modules that only the new build has do
/// not count for anything.
pub open spec fn completely_removed_modules(
    old_modules: Seq<(Seq<char>, Seq<char>)>,
    now_modules: Seq<(Seq<char>, Seq<char>)>,
) -> Seq<Seq<char>> {
    old_modules.filter(|e: (Seq<char>, Seq<char>)| !has_key(now_modules, e.0)).map_values(
        |e: (Seq<char>, Seq<char>)| e.0,
    )
}

/// Compares the changed modules of two builds: which were updated, and
/// which are gone for good.
pub fn diff_modules(old_modules: &TextMap<String>, now_modules: &TextMap<String>) -> (diff: (
    Vec<ModuleIdentifier>,
    Vec<ModuleIdentifier>,
))
    requires
        old_modules.wf(),
        now_modules.wf(),
    ensures
        text_views(diff.0@) == updated_modules(old_modules@, now_modules@),
        text_views(diff.1@) == completely_removed_modules(old_modules@, now_modules@),
{
    let ghost updated = |e: (Seq<char>, Seq<char>)| is_updated(now_modules@, e);
    let ghost gone = |e: (Seq<char>, Seq<char>)| !has_key(now_modules@, e.0);
    let ghost key = |e: (Seq<char>, Seq<char>)| e.0;
    let ghost all = old_modules@;
    let mut updated_modules: Vec<ModuleIdentifier> = Vec::new();
    let mut completely_removed_modules: Vec<ModuleIdentifier> = Vec::new();
    let mut i: usize = 0;
    proof {
        lemma_filter_empty(updated);
        lemma_filter_empty(gone);
        assert(all.take(0) =~= Seq::<(Seq<char>, Seq<char>)>::empty());
        assert(text_views(updated_modules@) =~= all.take(0).filter(updated).map_values(key));
        assert(text_views(completely_removed_modules@) =~= all.take(0).filter(gone).map_values(
            key,
        ));
    }
    while i < old_modules.len()
        invariant
            i <= old_modules@.len(),
            old_modules.wf(),
            now_modules.wf(),
            all == old_modules@,
            updated == (|e: (Seq<char>, Seq<char>)| is_updated(now_modules@, e)),
            gone == (|e: (Seq<char>, Seq<char>)| !has_key(now_modules@, e.0)),
            key == (|e: (Seq<char>, Seq<char>)| e.0),
            text_views(updated_modules@) == all.take(i as int).filter(updated).map_values(key),
            text_views(completely_removed_modules@) == all.take(i as int).filter(
                gone,
            ).map_values(key),
        decreases old_modules@.len() - i,
    {
        let old_uri = old_modules.key_at(i);
        let old_content = old_modules.value_at(i);
        let ghost e = all[i as int];
        let ghost seen = all.take(i as int);
        let ghost before_updated = text_views(updated_modules@);
        let ghost before_gone = text_views(completely_removed_modules@);
        proof {
            assert(all.take(i + 1) =~= seen.push(e));
            lemma_filter_push(seen, e, updated);
            lemma_filter_push(seen, e, gone);
        }
        match now_modules.get(old_uri.as_str()) {
            Some(now_content) => {
                if !crate::text::str_eq(now_content.as_str(), old_content.as_str()) {
                    updated_modules.push(old_uri.clone());
                    proof {
                        assert(text_views(updated_modules@) =~= before_updated.push(e.0));
                        assert(seen.filter(updated).push(e).map_values(key) =~= seen.filter(
                            updated,
                        ).map_values(key).push(e.0));
                    }
                }
            },
            None => {
                completely_removed_modules.push(old_uri.clone());
                proof {
                    assert(text_views(completely_removed_modules@) =~= before_gone.push(e.0));
                    assert(seen.filter(gone).push(e).map_values(key) =~= seen.filter(
                        gone,
                    ).map_values(key).push(e.0));
                }
            },
        }
        i = i + 1;
    }
    proof {
        assert(all.take(all.len() as int) =~= all);
    }
    (updated_modules, completely_removed_modules)
}

/// The views of a list of contents, in order.
pub open spec fn content_views(contents: Seq<HotUpdateContent>) -> Seq<HotUpdateContentView> {
    contents.map_values(|c: HotUpdateContent| c@)
}

/// The contents that a diff starts from: one per runtime tag, in the tags' order.
pub open spec fn fresh_contents(runtimes: Seq<Seq<char>>) -> Seq<HotUpdateContentView> {
    runtimes.map_values(|t: Seq<char>| HotUpdateContentView::fresh(t))
}

/// The contents after the chunk `chunk_id` was recorded as removed for each
/// runtime of `affected`. The content at a position belongs to the runtime
/// at that position of `runtimes`.
pub open spec fn record_removed(
    contents: Seq<HotUpdateContentView>,
    runtimes: Seq<Seq<char>>,
    affected: Seq<Seq<char>>,
    chunk_id: Seq<char>,
) -> Seq<HotUpdateContentView> {
    Seq::new(
        contents.len(),
        |i: int|
            if 0 <= i < runtimes.len() && affected.contains(runtimes[i]) {
                HotUpdateContentView {
                    removed_chunk_ids: set_insert(contents[i].removed_chunk_ids, chunk_id),
                    ..contents[i]
                }
            } else {
                contents[i]
            },
    )
}

/// The contents after the chunk `chunk_id` was recorded as updated for each
/// runtime of `affected`.
pub open spec fn record_updated(
    contents: Seq<HotUpdateContentView>,
    runtimes: Seq<Seq<char>>,
    affected: Seq<Seq<char>>,
    chunk_id: Seq<char>,
) -> Seq<HotUpdateContentView> {
    Seq::new(
        contents.len(),
        |i: int|
            if 0 <= i < runtimes.len() && affected.contains(runtimes[i]) {
                HotUpdateContentView {
                    updated_chunk_ids: set_insert(contents[i].updated_chunk_ids, chunk_id),
                    ..contents[i]
                }
            } else {
                contents[i]
            },
    )
}

/// The updated modules that the chunk `ukey` of the compilation holds, in
/// the order of `updated`.
pub open spec fn chunk_updated_modules(
    compilation: CompilationView,
    ukey: ChunkUkey,
    updated: Seq<Seq<char>>,
) -> Seq<Seq<char>> {
    updated.filter(|id: Seq<char>| compilation.chunk_graph.modules_of(ukey).contains(id))
}

/// What is folded into an update chunk's hash: the identifier of each of
/// its modules that the module graph holds, as bytes, in the modules' order.
pub open spec fn hashed_identities(compilation: CompilationView, modules: Seq<Seq<char>>) -> Seq<
    Seq<u8>,
> {
    modules.filter(|id: Seq<char>| compilation.module_graph.has(id)).map_values(
        |id: Seq<char>| vstd::utf8::encode_utf8(id),
    )
}

/// The update chunk made for the chunk `source` of the compilation: a
/// hot-update chunk of the same id, named after it, in the same chunk
/// groups, valid for `runtime`, hashed over `modules`.
pub open spec fn hot_update_chunk(
    compilation: CompilationView,
    source: ChunkView,
    runtime: Seq<Seq<char>>,
    modules: Seq<Seq<char>>,
) -> ChunkView {
    ChunkView {
        ukey: 0,
        id: source.id,
        name: Some(source.id),
        kind: ChunkKind::HotUpdate,
        runtime,
        groups: source.groups,
        hashed: hashed_identities(compilation, modules),
    }
}

/// The chunk graph after the first `count` of `modules` were put into the
/// chunk `ukey`.
pub open spec fn connect_all(
    graph: ChunkGraphView,
    ukey: ChunkUkey,
    modules: Seq<Seq<char>>,
    count: int,
) -> ChunkGraphView
    decreases count,
{
    if count <= 0 || count > modules.len() {
        graph
    } else {
        connect_all(graph, ukey, modules, count - 1).connect(ukey, modules[count - 1])
    }
}

/// The flags of every hot-update asset: the hot-module-replacement flag and no other.
pub open spec fn hot_update_info() -> AssetInfo {
    AssetInfo { hot_module_replacement: true, ..AssetInfo::plain() }
}

/// The file name under which a rendered update file is emitted: the id of
/// the chunk it was rendered for, or nothing where the compilation has no
/// such chunk, followed by `.hot-update.js`.
pub open spec fn update_asset_name(
    compilation: CompilationView,
    entry: RenderManifestEntryView,
) -> Seq<
    char,
> {
    (if entry.chunk_ukey < compilation.chunks.len() {
        compilation.chunks[entry.chunk_ukey as int].id
    } else {
        Seq::empty()
    }) + hot_update_chunk_suffix()
}

/// The assets after the first `count` rendered files were emitted, each
/// under its update name, flagged as hot-module-replacement.
pub open spec fn emit_entries(
    assets: Seq<(Seq<char>, AssetView)>,
    compilation: CompilationView,
    entries: Seq<RenderManifestEntryView>,
    count: int,
) -> Seq<(Seq<char>, AssetView)>
    decreases count,
{
    if count <= 0 || count > entries.len() {
        assets
    } else {
        put(
            emit_entries(assets, compilation, entries, count - 1),
            update_asset_name(compilation, entries[count - 1]),
            AssetView { source: entries[count - 1].source, info: hot_update_info() },
        )
    }
}

/// The assets after the manifests of the first `count` contents were
/// emitted, each under its content's file name, flagged as hot-module-replacement.
pub open spec fn emit_manifests(
    assets: Seq<(Seq<char>, AssetView)>,
    contents: Seq<HotUpdateContentView>,
    removed_modules: Seq<Seq<char>>,
    count: int,
) -> Seq<(Seq<char>, AssetView)>
    decreases count,
{
    if count <= 0 || count > contents.len() {
        assets
    } else {
        put(
            emit_manifests(assets, contents, removed_modules, count - 1),
            contents[count - 1].filename,
            AssetView {
                source: contents[count - 1].manifest(removed_modules),
                info: hot_update_info(),
            },
        )
    }
}

/// What the diff makes of one chunk of the old build, whose id is
/// `chunk_id`, given the compilation and the contents as the chunks before
/// it left them.
///
/// Where the new build has no lasting chunk of that id, the chunk is
/// recorded as removed for every runtime. Where it has one, the chunk's new
/// runtime is what the old runtimes and that chunk's runtime share. If they
/// share nothing the chunk is passed over. Else the chunk is recorded as
/// removed for the old runtimes beyond the new runtime; and if the chunk
/// holds updated modules, an update chunk with those modules joins the
/// compilation, what the plugins render for it is emitted, and the chunk is
/// recorded as updated for every runtime of the new runtime. A plugin's
/// failure to render is the failure of the step.
pub open spec fn chunk_step<P: Plugin>(
    plugins: Seq<P>,
    compilation: CompilationView,
    contents: Seq<HotUpdateContentView>,
    runtimes: Seq<Seq<char>>,
    updated: Seq<Seq<char>>,
    chunk_id: Seq<char>,
) -> Result<(CompilationView, Seq<HotUpdateContentView>), ErrorView> {
    match compilation.find_chunk(chunk_id) {
        None => Ok((compilation, record_removed(contents, runtimes, runtimes, chunk_id))),
        Some(current) => {
            let chunk = compilation.chunks[current as int];
            let new_runtime = runtime_intersection(runtimes, chunk.runtime);
            if new_runtime.len() == 0 {
                Ok((compilation, contents))
            } else {
                let removed_from_runtime = runtime_difference(runtimes, new_runtime);
                let new_modules = chunk_updated_modules(compilation, current, updated);
                let recorded = record_removed(contents, runtimes, removed_from_runtime, chunk_id);
                if new_modules.len() == 0 {
                    Ok((compilation, recorded))
                } else {
                    let ukey = compilation.chunks.len() as usize;
                    let with_chunk = compilation.add_chunk(
                        hot_update_chunk(compilation, chunk, new_runtime, new_modules),
                    );
                    let connected = CompilationView {
                        chunk_graph: connect_all(
                            with_chunk.chunk_graph,
                            ukey,
                            new_modules,
                            new_modules.len() as int,
                        ),
                        ..with_chunk
                    };
                    match collect_all(render_manifest_answers(plugins, connected, ukey)) {
                        Err(e) => Err(e),
                        Ok(entries) => Ok(
                            (
                                CompilationView {
                                    assets: emit_entries(
                                        connected.assets,
                                        connected,
                                        entries,
                                        entries.len() as int,
                                    ),
                                    ..connected
                                },
                                record_updated(recorded, runtimes, new_runtime, chunk_id),
                            ),
                        ),
                    }
                }
            }
        },
    }
}

/// What the diff makes of the first `count` chunks of the old build, one
/// after the other; the first failure ends it.
pub open spec fn chunk_steps<P: Plugin>(
    plugins: Seq<P>,
    compilation: CompilationView,
    contents: Seq<HotUpdateContentView>,
    runtimes: Seq<Seq<char>>,
    updated: Seq<Seq<char>>,
    chunk_ids: Seq<Seq<char>>,
    count: int,
) -> Result<(CompilationView, Seq<HotUpdateContentView>), ErrorView>
    decreases count,
{
    if count <= 0 || count > chunk_ids.len() {
        Ok((compilation, contents))
    } else {
        match chunk_steps(plugins, compilation, contents, runtimes, updated, chunk_ids, count - 1) {
            Err(e) => Err(e),
            Ok((c, k)) => chunk_step(plugins, c, k, runtimes, updated, chunk_ids[count - 1]),
        }
    }
}

/// The lasting chunks of a compilation, each as its id and its member
/// modules, in the chunks' order.
pub open spec fn old_chunks(compilation: CompilationView) -> Seq<(Seq<char>, Set<Seq<char>>)> {
    compilation.chunks.filter(|c: ChunkView| c.persistent()).map_values(
        |c: ChunkView| (c.id, compilation.chunk_graph.modules_of(c.ukey)),
    )
}

/// The ids of the lasting chunks of a compilation, in the chunks' order.
pub open spec fn persistent_chunk_ids(compilation: CompilationView) -> Seq<Seq<char>> {
    old_chunks(compilation).map_values(|c: (Seq<char>, Set<Seq<char>>)| c.0)
}

/// The identifiers of the modules that a rebuild reports as updated.
pub open spec fn updated_in(
    old: CompilationView,
    next: CompilationView,
    changed: Seq<Seq<char>>,
    removed: Seq<Seq<char>>,
) -> Seq<Seq<char>> {
    updated_modules(changed_modules(old, changed, removed), changed_modules(next, changed, removed))
}

/// The identifiers of the modules that a rebuild reports as gone for good:
/// what every manifest lists under `m`.
pub open spec fn removed_in(
    old: CompilationView,
    next: CompilationView,
    changed: Seq<Seq<char>>,
    removed: Seq<Seq<char>>,
) -> Seq<Seq<char>> {
    completely_removed_modules(
        changed_modules(old, changed, removed),
        changed_modules(next, changed, removed),
    )
}

/// What the diff of a rebuild comes to, before the manifests are written:
/// the new build with its update chunks and their rendered files, and the
/// content for each runtime of the old build, in the runtimes' order.
pub open spec fn diff_outcome<P: Plugin>(
    plugins: Seq<P>,
    old: CompilationView,
    next: CompilationView,
    changed: Seq<Seq<char>>,
    removed: Seq<Seq<char>>,
) -> Result<(CompilationView, Seq<HotUpdateContentView>), ErrorView> {
    chunk_steps(
        plugins,
        next,
        fresh_contents(old.entry_runtime()),
        old.entry_runtime(),
        updated_in(old, next, changed, removed),
        persistent_chunk_ids(old),
        persistent_chunk_ids(old).len() as int,
    )
}

/// What a rebuild makes of the new build `next`, given the build `old`
/// before it and the files that changed or went away: `next` itself where
/// the old build had no runtime to update; else `next` with an update chunk
/// and its rendered files for every chunk that holds updated modules, and
/// with one manifest per runtime of the old build. A plugin's failure to
/// render is the failure of the whole.
pub open spec fn hot_update<P: Plugin>(
    plugins: Seq<P>,
    old: CompilationView,
    next: CompilationView,
    changed: Seq<Seq<char>>,
    removed: Seq<Seq<char>>,
) -> Result<CompilationView, ErrorView> {
    if old.entry_runtime().len() == 0 {
        Ok(next)
    } else {
        match diff_outcome(plugins, old, next, changed, removed) {
            Err(e) => Err(e),
            Ok((compilation, contents)) => Ok(
                CompilationView {
                    assets: emit_manifests(
                        compilation.assets,
                        contents,
                        removed_in(old, next, changed, removed),
                        contents.len() as int,
                    ),
                    ..compilation
                },
            ),
        }
    }
}

/// Picks from `updated` the modules that the chunk `ukey` holds.
fn select_updated(
    compilation: &Compilation,
    ukey: ChunkUkey,
    updated: &Vec<ModuleIdentifier>,
) -> (selected:
    Vec<ModuleIdentifier>)
    requires
        compilation.wf(),
    ensures
        text_views(selected@) == chunk_updated_modules(compilation@, ukey, text_views(updated@)),
{
    let ghost all = text_views(updated@);
    let ghost held = |id: Seq<char>| compilation@.chunk_graph.modules_of(ukey).contains(id);
    let mut selected: Vec<ModuleIdentifier> = Vec::new();
    let mut i: usize = 0;
    proof {
        lemma_filter_empty(held);
        assert(all.take(0) =~= Seq::<Seq<char>>::empty());
        assert(text_views(selected@) =~= all.take(0).filter(held));
    }
    while i < updated.len()
        invariant
            i <= updated.len(),
            compilation.wf(),
            all == text_views(updated@),
            held == (|id: Seq<char>| compilation@.chunk_graph.modules_of(ukey).contains(id)),
            text_views(selected@) == all.take(i as int).filter(held),
        decreases updated.len() - i,
    {
        let ghost before = text_views(selected@);
        proof {
            assert(all.take(i + 1) =~= all.take(i as int).push(all[i as int]));
            lemma_filter_push(all.take(i as int), all[i as int], held);
        }
        if compilation.chunk_graph().is_module_in_chunk(&updated[i], ukey) {
            selected.push(updated[i].clone());
            assert(text_views(selected@) =~= before.push(all[i as int]));
        }
        i = i + 1;
    }
    proof {
        assert(all.take(all.len() as int) =~= all);
    }
    selected
}

/// Records the chunk `chunk_id` as removed for each runtime of `affected`.
fn note_removed(
    contents: &mut Vec<HotUpdateContent>,
    runtimes: &RuntimeSpec,
    affected: &RuntimeSpec,
    chunk_id: &String,
)
    requires
        old(contents)@.len() == runtimes@.len(),
    ensures
        content_views(final(contents)@) == record_removed(
            content_views(old(contents)@),
            runtimes@,
            affected@,
            chunk_id@,
        ),
{
    let ghost before = content_views(contents@);
    let ghost goal = record_removed(before, runtimes@, affected@, chunk_id@);
    let mut i: usize = 0;
    while i < contents.len()
        invariant
            i <= contents@.len(),
            contents@.len() == runtimes@.len(),
            before.len() == contents@.len(),
            goal == record_removed(before, runtimes@, affected@, chunk_id@),
            forall|j: int| 0 <= j < i ==> (#[trigger] contents@[j])@ == goal[j],
            forall|j: int| i <= j < contents@.len() ==> (#[trigger] contents@[j])@ == before[j],
        decreases contents@.len() - i,
    {
        if affected.contains(runtimes.get(i).as_str()) {
            contents[i].add_removed_chunk(chunk_id.clone());
        }
        i = i + 1;
    }
    assert(content_views(contents@) =~= goal);
}

/// Records the chunk `chunk_id` as updated for each runtime of `affected`.
fn note_updated(
    contents: &mut Vec<HotUpdateContent>,
    runtimes: &RuntimeSpec,
    affected: &RuntimeSpec,
    chunk_id: &String,
)
    requires
        old(contents)@.len() == runtimes@.len(),
    ensures
        content_views(final(contents)@) == record_updated(
            content_views(old(contents)@),
            runtimes@,
            affected@,
            chunk_id@,
        ),
{
    let ghost before = content_views(contents@);
    let ghost goal = record_updated(before, runtimes@, affected@, chunk_id@);
    let mut i: usize = 0;
    while i < contents.len()
        invariant
            i <= contents@.len(),
            contents@.len() == runtimes@.len(),
            before.len() == contents@.len(),
            goal == record_updated(before, runtimes@, affected@, chunk_id@),
            forall|j: int| 0 <= j < i ==> (#[trigger] contents@[j])@ == goal[j],
            forall|j: int| i <= j < contents@.len() ==> (#[trigger] contents@[j])@ == before[j],
        decreases contents@.len() - i,
    {
        if affected.contains(runtimes.get(i).as_str()) {
            contents[i].add_updated_chunk(chunk_id.clone());
        }
        i = i + 1;
    }
    assert(content_views(contents@) =~= goal);
}

/// Makes the update chunk for the chunk `current` of the compilation.
fn make_hot_update_chunk(
    compilation: &Compilation,
    current: ChunkUkey,
    runtime: RuntimeSpec,
    modules: &Vec<ModuleIdentifier>,
) -> (hot: Chunk)
    requires
        compilation.wf(),
        current < compilation@.chunks.len(),
        runtime.wf(),
    ensures
        hot@ == hot_update_chunk(
            compilation@,
            compilation@.chunks[current as int],
            runtime@,
            text_views(modules@),
        ),
        hot@.wf(),
{
    let source = match compilation.chunk(current) {
        Some(c) => c,
        None => {
            return Chunk::new(None, String::new(), ChunkKind::HotUpdate);
        },
    };
    let ghost source_view = compilation@.chunks[current as int];
    assert(source_view.wf());
    let chunk_id = source.id().clone();
    let mut hot = Chunk::new(Some(chunk_id.clone()), chunk_id, ChunkKind::HotUpdate);
    hot.set_runtime(runtime);
    let groups = source.groups();
    let mut g: usize = 0;
    proof {
        assert(hot@.groups =~= groups@.take(0));
    }
    while g < groups.len()
        invariant
            g <= groups.len(),
            groups@ == source_view.groups,
            groups@.no_duplicates(),
            hot@ == (ChunkView {
                groups: groups@.take(g as int),
                hashed: Seq::empty(),
                ..hot_update_chunk(compilation@, source_view, runtime@, text_views(modules@))
            }),
        decreases groups.len() - g,
    {
        proof {
            let seen = groups@.take(g as int);
            if seen.contains(groups@[g as int]) {
                let k = choose|k: int| 0 <= k < seen.len() && seen[k] == groups@[g as int];
                assert(groups@[k] == groups@[g as int]);
            }
            assert(groups@.take(g + 1) =~= seen.push(groups@[g as int]));
        }
        hot.add_group(groups[g]);
        g = g + 1;
    }
    proof {
        assert(groups@.take(groups@.len() as int) =~= groups@);
    }
    let ghost all = text_views(modules@);
    let ghost known = |id: Seq<char>| compilation@.module_graph.has(id);
    let ghost bytes = |id: Seq<char>| vstd::utf8::encode_utf8(id);
    let mut m: usize = 0;
    proof {
        lemma_filter_empty(known);
        assert(all.take(0) =~= Seq::<Seq<char>>::empty());
        assert(hot@.hashed =~= all.take(0).filter(known).map_values(bytes));
    }
    while m < modules.len()
        invariant
            m <= modules.len(),
            compilation.wf(),
            all == text_views(modules@),
            known == (|id: Seq<char>| compilation@.module_graph.has(id)),
            bytes == (|id: Seq<char>| vstd::utf8::encode_utf8(id)),
            hot@ == (ChunkView {
                hashed: all.take(m as int).filter(known).map_values(bytes),
                ..hot_update_chunk(compilation@, source_view, runtime@, all)
            }),
        decreases modules.len() - m,
    {
        let ghost seen = all.take(m as int);
        let ghost id = all[m as int];
        proof {
            assert(all.take(m + 1) =~= seen.push(id));
            lemma_filter_push(seen, id, known);
        }
        if compilation.module_graph().module_by_identifier(&modules[m]).is_some() {
            hot.update_hash(modules[m].as_str().as_bytes());
            proof {
                assert(seen.filter(known).push(id).map_values(bytes) =~= seen.filter(
                    known,
                ).map_values(bytes).push(bytes(id)));
            }
        }
        m = m + 1;
    }
    proof {
        assert(all.take(all.len() as int) =~= all);
    }
    hot
}

/// Puts every module of `modules` into the chunk `ukey`.
fn connect_modules(compilation: &mut Compilation, ukey: ChunkUkey, modules: &Vec<ModuleIdentifier>)
    requires
        old(compilation).wf(),
    ensures
        final(compilation).wf(),
        final(compilation)@ == (CompilationView {
            chunk_graph: connect_all(
                old(compilation)@.chunk_graph,
                ukey,
                text_views(modules@),
                modules@.len() as int,
            ),
            ..old(compilation)@
        }),
{
    let ghost all = text_views(modules@);
    let mut i: usize = 0;
    while i < modules.len()
        invariant
            i <= modules.len(),
            compilation.wf(),
            all == text_views(modules@),
            compilation@ == (CompilationView {
                chunk_graph: connect_all(old(compilation)@.chunk_graph, ukey, all, i as int),
                ..old(compilation)@
            }),
        decreases modules.len() - i,
    {
        compilation.connect_chunk_and_module(ukey, modules[i].clone());
        i = i + 1;
    }
}

/// Emits what the plugins rendered for an update chunk.
fn emit_rendered(compilation: &mut Compilation, entries: &Vec<RenderManifestEntry>)
    requires
        old(compilation).wf(),
    ensures
        final(compilation).wf(),
        final(compilation)@ == (CompilationView {
            assets: emit_entries(
                old(compilation)@.assets,
                old(compilation)@,
                entries@.map_values(|e: RenderManifestEntry| e@),
                entries@.len() as int,
            ),
            ..old(compilation)@
        }),
{
    let ghost all = entries@.map_values(|e: RenderManifestEntry| e@);
    let mut i: usize = 0;
    while i < entries.len()
        invariant
            i <= entries.len(),
            compilation.wf(),
            all == entries@.map_values(|e: RenderManifestEntry| e@),
            compilation@ == (CompilationView {
                assets: emit_entries(
                    old(compilation)@.assets,
                    old(compilation)@,
                    all,
                    i as int,
                ),
                ..old(compilation)@
            }),
        decreases entries.len() - i,
    {
        let entry = &entries[i];
        let asset = CompilationAsset::new(
            entry.source().clone(),
            AssetInfo::default().with_hot_module_replacement(true),
        );
        let mut name = match compilation.chunk(entry.path_options.chunk_ukey) {
            Some(chunk) => chunk.id().clone(),
            None => String::new(),
        };
        name.append(".hot-update.js");
        assert(name@ == update_asset_name(old(compilation)@, all[i as int]));
        compilation.emit_asset(name, asset);
        i = i + 1;
    }
}

/// Emits one manifest per content.
fn emit_all_manifests(
    compilation: &mut Compilation,
    contents: &Vec<HotUpdateContent>,
    removed_modules: &Vec<ModuleIdentifier>,
)
    requires
        old(compilation).wf(),
    ensures
        final(compilation).wf(),
        final(compilation)@ == (CompilationView {
            assets: emit_manifests(
                old(compilation)@.assets,
                content_views(contents@),
                text_views(removed_modules@),
                contents@.len() as int,
            ),
            ..old(compilation)@
        }),
{
    let ghost all = content_views(contents@);
    let mut i: usize = 0;
    while i < contents.len()
        invariant
            i <= contents.len(),
            compilation.wf(),
            all == content_views(contents@),
            compilation@ == (CompilationView {
                assets: emit_manifests(
                    old(compilation)@.assets,
                    all,
                    text_views(removed_modules@),
                    i as int,
                ),
                ..old(compilation)@
            }),
        decreases contents.len() - i,
    {
        let content = &contents[i];
        let asset = CompilationAsset::new(
            content.manifest(removed_modules),
            AssetInfo::default().with_hot_module_replacement(true),
        );
        compilation.emit_asset(content.filename().clone(), asset);
        i = i + 1;
    }
}

/// Carries out the diff for one chunk of the old build, whose id is
/// `chunk_id`, on the compilation and the contents as the chunks before it
/// left them. After a failure the compilation and the contents are of no
/// further use.
pub fn apply_old_chunk<P: Plugin, R>(
    driver: &PluginDriver<P, R>,
    compilation: &mut Compilation,
    contents: &mut Vec<HotUpdateContent>,
    all_old_runtime: &RuntimeSpec,
    updated_modules: &Vec<ModuleIdentifier>,
    chunk_id: &String,
) -> (r: Result<(), Error>)
    requires
        old(compilation).wf(),
        all_old_runtime.wf(),
        old(contents)@.len() == all_old_runtime@.len(),
    ensures
        final(contents)@.len() == old(contents)@.len(),
        match chunk_step(
            driver.plugin_list(),
            old(compilation)@,
            content_views(old(contents)@),
            all_old_runtime@,
            text_views(updated_modules@),
            chunk_id@,
        ) {
            Ok((c, k)) => r is Ok && final(compilation).wf() && final(compilation)@ == c
                && content_views(final(contents)@) == k,
            Err(e) => r matches Err(failure) && failure@ == e,
        },
{
    let ghost before = compilation@;
    let ghost listed = content_views(contents@);
    let current = match compilation.find_chunk_by_id(chunk_id.as_str()) {
        Some(ukey) => ukey,
        None => {
            note_removed(contents, all_old_runtime, all_old_runtime, chunk_id);
            assert(content_views(contents@).len() == listed.len());
            return Ok(());
        },
    };
    let new_runtime = match compilation.chunk(current) {
        Some(chunk) => all_old_runtime.intersect(chunk.runtime()),
        None => RuntimeSpec::new(),
    };
    assert(new_runtime@ == runtime_intersection(
        all_old_runtime@,
        before.chunks[current as int].runtime,
    ));
    if new_runtime.is_empty() {
        return Ok(());
    }
    let new_modules = select_updated(compilation, current, updated_modules);
    let removed_from_runtime = all_old_runtime.subtract(&new_runtime);
    note_removed(contents, all_old_runtime, &removed_from_runtime, chunk_id);
    assert(content_views(contents@).len() == listed.len());
    if new_modules.len() == 0 {
        return Ok(());
    }
    let hot_update_chunk = make_hot_update_chunk(
        compilation,
        current,
        new_runtime.clone(),
        &new_modules,
    );
    let ukey = match compilation.add_chunk(hot_update_chunk) {
        Some(ukey) => ukey,
        None => {
            return Ok(());
        },
    };
    connect_modules(compilation, ukey, &new_modules);
    let render_manifest = match driver.render_manifest(
        RenderManifestArgs { compilation: &*compilation, chunk_ukey: ukey },
    ) {
        Ok(entries) => entries,
        Err(e) => {
            return Err(e);
        },
    };
    emit_rendered(compilation, &render_manifest);
    let ghost recorded = content_views(contents@);
    note_updated(contents, all_old_runtime, &new_runtime, chunk_id);
    assert(content_views(contents@).len() == recorded.len());
    Ok(())
}

/// What the diff keeps of a chunk of the old build: its id and its member modules.
pub struct OldChunk {
    pub id: String,
    pub modules: ModuleSet,
}

impl View for OldChunk {
    type V = (Seq<char>, Set<Seq<char>>);

    open spec fn view(&self) -> (Seq<char>, Set<Seq<char>>) {
        (self.id@, module_set_contents(self.modules))
    }
}

/// Takes down the id and the member modules of every lasting chunk. Chunk
/// keys are of no use across builds, so the diff goes by these ids.
pub fn snapshot_chunks(compilation: &Compilation) -> (snapshot: Vec<OldChunk>)
    requires
        compilation.wf(),
    ensures
        snapshot@.map_values(|c: OldChunk| c@) == old_chunks(compilation@),
{
    let ghost all = compilation@.chunks;
    let ghost lasting = |c: ChunkView| c.persistent();
    let ghost pair = |c: ChunkView| (c.id, compilation@.chunk_graph.modules_of(c.ukey));
    let mut snapshot: Vec<OldChunk> = Vec::new();
    let mut ukey: usize = 0;
    proof {
        lemma_filter_empty(lasting);
        assert(all.take(0) =~= Seq::<ChunkView>::empty());
        assert(snapshot@.map_values(|c: OldChunk| c@) =~= all.take(0).filter(lasting).map_values(
            pair,
        ));
    }
    while ukey < compilation.chunk_count()
        invariant
            ukey <= all.len(),
            compilation.wf(),
            all == compilation@.chunks,
            lasting == (|c: ChunkView| c.persistent()),
            pair == (|c: ChunkView| (c.id, compilation@.chunk_graph.modules_of(c.ukey))),
            snapshot@.map_values(|c: OldChunk| c@) == all.take(ukey as int).filter(
                lasting,
            ).map_values(pair),
        decreases all.len() - ukey,
    {
        let ghost seen = all.take(ukey as int);
        let ghost c = all[ukey as int];
        let ghost before = snapshot@.map_values(|c: OldChunk| c@);
        proof {
            assert(all.take(ukey + 1) =~= seen.push(c));
            lemma_filter_push(seen, c, lasting);
            assert(c.ukey == ukey);
        }
        match compilation.chunk(ukey) {
            Some(chunk) => {
                if chunk.is_persistent() {
                    match compilation.chunk_graph().get_chunk_graph_chunk(ukey) {
                        Some(members) => {
                            let taken = OldChunk {
                                id: chunk.id().clone(),
                                modules: members.snapshot_modules(),
                            };
                            snapshot.push(taken);
                            proof {
                                assert(snapshot@.map_values(|c: OldChunk| c@) =~= before.push(
                                    pair(c),
                                ));
                                assert(seen.filter(lasting).push(c).map_values(pair)
                                    =~= seen.filter(lasting).map_values(pair).push(pair(c)));
                            }
                        },
                        None => {
                            proof {
                                assert(compilation@.chunk_graph.chunks[ukey as int] == ukey);
                            }
                        },
                    }
                }
            },
            None => {},
        }
        ukey = ukey + 1;
    }
    proof {
        assert(all.take(all.len() as int) =~= all);
    }
    snapshot
}

/// Once a step of the diff has failed, the failure stands whatever chunks follow.
pub proof fn lemma_chunk_steps_failure<P: Plugin>(
    plugins: Seq<P>,
    compilation: CompilationView,
    contents: Seq<HotUpdateContentView>,
    runtimes: Seq<Seq<char>>,
    updated: Seq<Seq<char>>,
    chunk_ids: Seq<Seq<char>>,
    failed: int,
    count: int,
)
    requires
        0 <= failed <= count <= chunk_ids.len(),
        chunk_steps(plugins, compilation, contents, runtimes, updated, chunk_ids, failed) is Err,
    ensures
        chunk_steps(plugins, compilation, contents, runtimes, updated, chunk_ids, count)
            == chunk_steps(plugins, compilation, contents, runtimes, updated, chunk_ids, failed),
    decreases count - failed,
{
    if failed < count {
        lemma_chunk_steps_failure(
            plugins,
            compilation,
            contents,
            runtimes,
            updated,
            chunk_ids,
            failed,
            count - 1,
        );
    }
}

/// A compilation with further diagnostics after those it has.
pub open spec fn with_diagnostics(
    compilation: CompilationView,
    pending: Seq<Diagnostic>,
) -> CompilationView {
    CompilationView {
        diagnostics: compilation.diagnostics + pending.map_values(|d: Diagnostic| d@),
        ..compilation
    }
}

/// Moves what the plugins reported from the driver into the compilation.
fn drain_diagnostics<P: Plugin, R>(driver: &mut PluginDriver<P, R>, compilation: &mut Compilation)
    requires
        old(driver).wf(),
        old(compilation).wf(),
    ensures
        final(driver).wf(),
        final(driver).plugin_list() == old(driver).plugin_list(),
        final(driver).pending_diagnostics().len() == 0,
        final(compilation).wf(),
        final(compilation)@ == with_diagnostics(
            old(compilation)@,
            old(driver).pending_diagnostics(),
        ),
{
    let ghost pending = driver.pending_diagnostics();
    let ghost start = compilation@;
    let mut taken = driver.take_diagnostic();
    let mut i: usize = 0;
    proof {
        assert(start.diagnostics + pending.take(0).map_values(|d: Diagnostic| d@)
            =~= start.diagnostics);
    }
    while i < taken.len()
        invariant
            i <= taken.len(),
            taken@ == pending,
            compilation.wf(),
            compilation@ == with_diagnostics(start, pending.take(i as int)),
        decreases taken.len() - i,
    {
        let ghost before = compilation@.diagnostics;
        compilation.push_diagnostic(taken[i].clone());
        proof {
            assert(pending.take(i + 1) =~= pending.take(i as int).push(pending[i as int]));
            assert(start.diagnostics + pending.take(i + 1).map_values(|d: Diagnostic| d@)
                =~= before.push(pending[i as int]@));
        }
        i = i + 1;
    }
    proof {
        assert(pending.take(pending.len() as int) =~= pending);
    }
}

impl<P: Plugin, R> Compiler<P, R> {
    /// Ends a rebuild. `built` is what the build pipeline made of the
    /// compilation that `begin_rebuild` handed out: the new build, or the
    /// failure that ended it.
    ///
    /// The cache idles again afterwards, whatever happened. After a failure,
    /// of the pipeline or of a plugin that renders an update chunk, the
    /// failure comes back and the last good compilation stays untouched.
    /// Else the new build, with the update chunks, their rendered files and
    /// one manifest per runtime of the old build, becomes the last good
    /// compilation; what the plugins reported since the diagnostics were last
    /// taken goes into it; and its report comes back.
    pub fn rebuild(
        &mut self,
        changed_files: Vec<String>,
        removed_files: Vec<String>,
        built: Result<Compilation, Error>,
    ) -> (r: Result<Stats, Error>)
        requires
            old(self).wf(),
            built matches Ok(next) ==> next.wf(),
        ensures
            final(self).wf(),
            final(self).cache_idle(),
            final(self).cache_pauses() == old(self).cache_pauses(),
            final(self).plugin_list() == old(self).plugin_list(),
            final(self).options_spec() == old(self).options_spec(),
            match built {
                Err(failure) => r matches Err(e) && e == failure && final(self).current() == old(
                    self,
                ).current() && final(self).pending_diagnostics() == old(
                    self,
                ).pending_diagnostics(),
                Ok(next) => match hot_update(
                    old(self).plugin_list(),
                    old(self).current(),
                    next@,
                    text_views(changed_files@),
                    text_views(removed_files@),
                ) {
                    Err(failure) => r matches Err(e) && e@ == failure && final(self).current()
                        == old(self).current() && final(self).pending_diagnostics() == old(
                        self,
                    ).pending_diagnostics(),
                    Ok(result) => r matches Ok(stats) && final(self).current() == with_diagnostics(
                        result,
                        old(self).pending_diagnostics(),
                    ) && final(self).pending_diagnostics().len() == 0 && stats.asset_list()
                        == asset_summary(result.assets) && stats.diagnostic_list()
                        == final(self).current().diagnostics,
                },
            },
    {
        self.cache.begin_idle();
        let mut next = match built {
            Ok(next) => next,
            Err(failure) => {
                return Err(failure);
            },
        };
        let ghost next_view = next@;
        let ghost changed = text_views(changed_files@);
        let ghost removed = text_views(removed_files@);
        let ghost plugins = self.plugin_list();
        let all_old_runtime = self.compilation.entry_runtime();
        if all_old_runtime.is_empty() {
            drain_diagnostics(&mut self.plugin_driver, &mut next);
            self.compilation = next;
            return Ok(self.compilation.get_stats());
        }
        let old_modules = collect_changed_modules(
            &self.compilation,
            &changed_files,
            &removed_files,
        );
        let old_chunks = snapshot_chunks(&self.compilation);
        let ghost chunk_ids = persistent_chunk_ids(self.compilation@);
        let mut hot_update_main_content_by_runtime: Vec<HotUpdateContent> = Vec::new();
        let mut t: usize = 0;
        proof {
            assert(content_views(hot_update_main_content_by_runtime@) =~= fresh_contents(
                all_old_runtime@.take(0),
            ));
        }
        while t < all_old_runtime.len()
            invariant
                t <= all_old_runtime@.len(),
                hot_update_main_content_by_runtime@.len() == t,
                content_views(hot_update_main_content_by_runtime@) == fresh_contents(
                    all_old_runtime@.take(t as int),
                ),
            decreases all_old_runtime@.len() - t,
        {
            let ghost before = content_views(hot_update_main_content_by_runtime@);
            let content = HotUpdateContent::new(all_old_runtime.get(t).as_str());
            hot_update_main_content_by_runtime.push(content);
            proof {
                assert(all_old_runtime@.take(t + 1) =~= all_old_runtime@.take(t as int).push(
                    all_old_runtime@[t as int],
                ));
                assert(content_views(hot_update_main_content_by_runtime@) =~= before.push(
                    HotUpdateContentView::fresh(all_old_runtime@[t as int]),
                ));
            }
            t = t + 1;
        }
        proof {
            assert(all_old_runtime@.take(all_old_runtime@.len() as int) =~= all_old_runtime@);
        }
        let now_modules = collect_changed_modules(&next, &changed_files, &removed_files);
        let (updated_modules, completely_removed_modules) = diff_modules(
            &old_modules,
            &now_modules,
        );
        let ghost updated = text_views(updated_modules@);
        let mut i: usize = 0;
        while i < old_chunks.len()
            invariant
                i <= old_chunks@.len(),
                next.wf(),
                self.wf(),
                self.cache_idle(),
                self.current() == old(self).current(),
                self.pending_diagnostics() == old(self).pending_diagnostics(),
                self.cache_pauses() == old(self).cache_pauses(),
                self.options_spec() == old(self).options_spec(),
                plugins == old(self).plugin_list(),
                changed == text_views(changed_files@),
                removed == text_views(removed_files@),
                all_old_runtime@ == old(self).current().entry_runtime(),
                all_old_runtime@.len() > 0,
                chunk_ids == persistent_chunk_ids(old(self).current()),
                updated == self::updated_modules(
                    changed_modules(old(self).current(), changed, removed),
                    changed_modules(next_view, changed, removed),
                ),
                text_views(completely_removed_modules@) == self::completely_removed_modules(
                    changed_modules(old(self).current(), changed, removed),
                    changed_modules(next_view, changed, removed),
                ),
                built matches Ok(n) && n@ == next_view,
                all_old_runtime.wf(),
                hot_update_main_content_by_runtime@.len() == all_old_runtime@.len(),
                self.plugin_driver.plugin_list() == plugins,
                updated == text_views(updated_modules@),
                chunk_ids == old_chunks@.map_values(|c: OldChunk| c@).map_values(
                    |c: (Seq<char>, Set<Seq<char>>)| c.0,
                ),
                chunk_steps(
                    plugins,
                    next_view,
                    fresh_contents(all_old_runtime@),
                    all_old_runtime@,
                    updated,
                    chunk_ids,
                    i as int,
                ) == Ok::<(CompilationView, Seq<HotUpdateContentView>), ErrorView>(
                    (next@, content_views(hot_update_main_content_by_runtime@)),
                ),
            decreases old_chunks@.len() - i,
        {
            assert(chunk_ids[i as int] == old_chunks@[i as int].id@);
            match apply_old_chunk(
                &self.plugin_driver,
                &mut next,
                &mut hot_update_main_content_by_runtime,
                &all_old_runtime,
                &updated_modules,
                &old_chunks[i].id,
            ) {
                Ok(_) => {},
                Err(failure) => {
                    proof {
                        lemma_chunk_steps_failure(
                            plugins,
                            next_view,
                            fresh_contents(all_old_runtime@),
                            all_old_runtime@,
                            updated,
                            chunk_ids,
                            i + 1,
                            chunk_ids.len() as int,
                        );
                    }
                    return Err(failure);
                },
            }
            i = i + 1;
        }
        emit_all_manifests(
            &mut next,
            &hot_update_main_content_by_runtime,
            &completely_removed_modules,
        );
        drain_diagnostics(&mut self.plugin_driver, &mut next);
        self.compilation = next;
        Ok(self.compilation.get_stats())
    }
}

} // verus!
